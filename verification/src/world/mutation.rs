//! Mutations: changes to a [`World`] that are described first and applied
//! later, one at a time.

use crate::datatypes::arenavec::reversed;
use crate::world::World;
use vstd::prelude::*;

verus! {

/// A type that mutates the world.
pub trait Mutation: Sized {
    /// The mutation that undoes this one.
    type Reverse;

    /// Applies the mutation. Whatever it does to the world, it leaves it
    /// well formed.
    fn apply(self, world: &mut World)
        requires
            old(world).wf(),
        ensures
            final(world).wf(),
    ;

    /// The mutation that would undo this one in the world as it is.
    fn build_reverse(&self, world: &World) -> (reverse: Self::Reverse)
        requires
            world.wf(),
    ;
}

impl Mutation for () {
    type Reverse = ();

    #[inline(always)]
    fn apply(self, world: &mut World)
        ensures
            *final(world) == *old(world),
    {
    }

    #[inline(always)]
    fn build_reverse(&self, world: &World) -> (reverse: Self::Reverse) {
    }
}

/// Some mutations that are applied one after the other, from the first to
/// the last.
pub struct MutationSet<M: Mutation> {
    mutations: Vec<M>,
}

impl<M: Mutation> MutationSet<M> {
    /// The mutations, in the order in which they are applied.
    pub closed spec fn mutations(&self) -> Seq<M> {
        self.mutations@
    }

    pub fn new(mutations: Vec<M>) -> (set: Self)
        ensures
            set.mutations() == mutations@,
    {
        Self { mutations }
    }

    /// How many mutations the set holds.
    pub fn len(&self) -> (len: usize)
        ensures
            len == self.mutations().len(),
    {
        self.mutations.len()
    }
}

impl<M: Mutation> Mutation for MutationSet<M> {
    type Reverse = Vec<M::Reverse>;

    /// Applies the mutations one after the other, from the first to the
    /// last: the world goes through one state for each of them, each
    /// mutation takes it from its state to the next as that mutation says,
    /// and the last state is the world that is left.
    fn apply(self, world: &mut World)
        ensures
            exists|worlds: Seq<World>|
                {
                    &&& worlds.len() == self.mutations().len() + 1
                    &&& worlds[0] == *old(world)
                    &&& worlds[self.mutations().len() as int] == *final(world)
                    &&& forall|i: int|
                        0 <= i < self.mutations().len() ==> (#[trigger] worlds[i]).wf()
                            && exists|inner: &mut World|
                            *inner == worlds[i] && *final(inner) == worlds[i + 1]
                                && #[trigger] call_ensures(
                                M::apply,
                                (self.mutations()[i], inner),
                                (),
                            )
                },
    {
        let ghost all = self.mutations@;
        let ghost mut worlds: Seq<World> = seq![*world];
        let mut rest = reversed(self.mutations);
        while rest.len() > 0
            invariant
                world.wf(),
                rest@.len() <= all.len(),
                worlds.len() == all.len() - rest@.len() + 1,
                worlds[0] == *old(world),
                worlds[all.len() - rest@.len()] == *world,
                forall|j: int| 0 <= j < rest@.len() ==> rest@[j] == all[all.len() - 1 - j],
                forall|i: int|
                    0 <= i < all.len() - rest@.len() ==> (#[trigger] worlds[i]).wf()
                        && exists|inner: &mut World|
                        *inner == worlds[i] && *final(inner) == worlds[i + 1]
                            && #[trigger] call_ensures(M::apply, (all[i], inner), ()),
            decreases rest@.len(),
        {
            let ghost done = all.len() - rest@.len();
            let ghost before = *world;
            let ghost so_far = worlds;
            let mutation = rest.pop().unwrap();
            proof {
                assert(mutation == all[done]);
            }
            mutation.apply(world);
            proof {
                let now = *world;
                assert(exists|inner: &mut World|
                    *inner == before && *final(inner) == now && #[trigger] call_ensures(
                        M::apply,
                        (all[done], inner),
                        (),
                    ));
                worlds = so_far.push(now);
                assert forall|i: int| 0 <= i < done + 1 implies (#[trigger] worlds[i]).wf()
                    && exists|inner: &mut World|
                    *inner == worlds[i] && *final(inner) == worlds[i + 1] && #[trigger] call_ensures(
                        M::apply,
                        (all[i], inner),
                        (),
                    ) by {
                    if i < done {
                        assert(so_far[i].wf());
                        assert(worlds[i] == so_far[i]);
                        assert(worlds[i + 1] == so_far[i + 1]);
                    } else {
                        assert(worlds[i] == before);
                        assert(worlds[i + 1] == now);
                    }
                }
            }
        }
    }

    /// The mutations that would undo these in the world as it is, one for
    /// each of them and in their order: each is what its mutation builds
    /// in this world.
    fn build_reverse(&self, world: &World) -> (reverse: Self::Reverse)
        ensures
            reverse@.len() == self.mutations().len(),
            forall|i: int|
                0 <= i < self.mutations().len() ==> call_ensures(
                    M::build_reverse,
                    (&self.mutations()[i], world),
                    #[trigger] reverse@[i],
                ),
    {
        let mut reverse: Vec<M::Reverse> = Vec::new();
        let mut idx: usize = 0;
        while idx < self.mutations.len()
            invariant
                world.wf(),
                idx <= self.mutations@.len(),
                reverse@.len() == idx,
                forall|i: int|
                    0 <= i < idx ==> call_ensures(
                        M::build_reverse,
                        (&self.mutations@[i], world),
                        #[trigger] reverse@[i],
                    ),
            decreases self.mutations@.len() - idx,
        {
            let built = self.mutations[idx].build_reverse(world);
            reverse.push(built);
            idx = idx + 1;
        }
        reverse
    }
}

} // verus!
