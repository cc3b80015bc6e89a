//! Executables: units of work that run on the data of a [`World`].

use crate::world::World;
use vstd::prelude::*;

verus! {

/// Executables are units of work that get their data from the [`World`].
pub trait Executable: Sized {
    /// The return type.
    type Output;

    /// Run this executable in the given [`World`]. Whatever it does to the
    /// world, it leaves it well formed.
    ///
    /// Note that, unlike [`World::execute`], this does not take the
    /// messages that the executable sent out of the buffer.
    fn execute(self, world: &mut World) -> (out: Self::Output)
        requires
            old(world).wf(),
        ensures
            final(world).wf(),
    ;

    /// Convert this [`Executable`] into a [`TypeErasedExecutable`].
    fn type_erase(self) -> (stored: ExecutableStore<Self>)
        ensures
            stored.executable == self,
    {
        ExecutableStore { executable: self }
    }
}

/// The same as [`Executable`], for code that is to know nothing of what an
/// executable takes from the world. You can convert an [`Executable`] into
/// this with [`Executable::type_erase`].
pub trait TypeErasedExecutable: Sized {
    type Output;

    /// Run this executable in the given [`World`]. Whatever it does to the
    /// world, it leaves it well formed.
    fn execute(self, world: &mut World) -> (out: Self::Output)
        requires
            old(world).wf(),
        ensures
            final(world).wf(),
    ;
}

/// An [`Executable`] with a custom first argument.
pub trait ExecutableWithState<State>: Sized {
    type Output;

    /// Stores `state` with this executable, which then runs without being
    /// handed one.
    fn with_state(self, state: State) -> (stored: ExecutableWithStateStore<State, Self>)
        ensures
            stored.executable == self,
            stored.state == state,
    {
        ExecutableWithStateStore { executable: self, state }
    }

    /// Run this executable in the given [`World`] with the given state.
    fn execute(self, state: State, world: &mut World) -> (out: Self::Output)
        requires
            old(world).wf(),
        ensures
            final(world).wf(),
    ;
}

/// Wraps around an executable to give it one type whatever its arguments
/// are.
pub struct ExecutableStore<E: Executable> {
    pub executable: E,
}

impl<E: Executable> Executable for ExecutableStore<E> {
    type Output = E::Output;

    /// Runs the executable that is stored: the world changes as that
    /// executable changes it, and what comes back is what it gives.
    fn execute(self, world: &mut World) -> (out: Self::Output)
        ensures
            exists|inner: &mut World|
                *inner == *old(world) && *final(inner) == *final(world) && #[trigger] call_ensures(
                    E::execute,
                    (self.executable, inner),
                    out,
                ),
    {
        self.executable.execute(world)
    }
}

impl<E: Executable> TypeErasedExecutable for ExecutableStore<E> {
    type Output = E::Output;

    /// Runs the executable that is stored: the world changes as that
    /// executable changes it, and what comes back is what it gives.
    fn execute(self, world: &mut World) -> (out: Self::Output)
        ensures
            exists|inner: &mut World|
                *inner == *old(world) && *final(inner) == *final(world) && #[trigger] call_ensures(
                    E::execute,
                    (self.executable, inner),
                    out,
                ),
    {
        self.executable.execute(world)
    }
}

/// Wraps around an executable with a state to store its state with it.
pub struct ExecutableWithStateStore<State, E: ExecutableWithState<State>> {
    pub executable: E,
    pub state: State,
}

impl<State, E: ExecutableWithState<State>> Executable for ExecutableWithStateStore<State, E> {
    type Output = E::Output;

    /// Runs the executable that is stored, with the state that is stored
    /// with it: the world changes as that executable changes it, and what
    /// comes back is what it gives.
    fn execute(self, world: &mut World) -> (out: Self::Output)
        ensures
            exists|inner: &mut World|
                *inner == *old(world) && *final(inner) == *final(world) && #[trigger] call_ensures(
                    E::execute,
                    (self.executable, self.state, inner),
                    out,
                ),
    {
        self.executable.execute(self.state, world)
    }
}

impl<State, E: ExecutableWithState<State>> TypeErasedExecutable for ExecutableWithStateStore<
    State,
    E,
> {
    type Output = E::Output;

    /// Runs the executable that is stored, with the state that is stored
    /// with it: the world changes as that executable changes it, and what
    /// comes back is what it gives.
    fn execute(self, world: &mut World) -> (out: Self::Output)
        ensures
            exists|inner: &mut World|
                *inner == *old(world) && *final(inner) == *final(world) && #[trigger] call_ensures(
                    E::execute,
                    (self.executable, self.state, inner),
                    out,
                ),
    {
        self.executable.execute(self.state, world)
    }
}

impl<E: Executable> ExecutableStore<E> {
    /// Runs the executable that is stored, whichever of the two traits
    /// the caller has in scope: the world changes as that executable
    /// changes it, and what comes back is what it gives.
    pub fn execute(self, world: &mut World) -> (out: E::Output)
        requires
            old(world).wf(),
        ensures
            final(world).wf(),
            exists|inner: &mut World|
                *inner == *old(world) && *final(inner) == *final(world) && #[trigger] call_ensures(
                    E::execute,
                    (self.executable, inner),
                    out,
                ),
    {
        self.executable.execute(world)
    }
}

impl<State, E: ExecutableWithState<State>> ExecutableWithStateStore<State, E> {
    /// Runs the executable that is stored, with the state that is stored
    /// with it, whichever of the two traits the caller has in scope: the
    /// world changes as that executable changes it, and what comes back is
    /// what it gives.
    pub fn execute(self, world: &mut World) -> (out: E::Output)
        requires
            old(world).wf(),
        ensures
            final(world).wf(),
            exists|inner: &mut World|
                *inner == *old(world) && *final(inner) == *final(world) && #[trigger] call_ensures(
                    E::execute,
                    (self.executable, self.state, inner),
                    out,
                ),
    {
        self.executable.execute(self.state, world)
    }
}

} // verus!
