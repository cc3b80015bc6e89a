//! Plugins: units that set a [`World`] up for one part of an application.

use crate::world::World;
use vstd::prelude::*;

verus! {

/// A unit that sets a [`World`] up: it adds the singletons and the message
/// handlers that one part of an application needs. A world loads each
/// plugin once.
pub trait Plugin: Default {
    /// Sets `world` up. Whatever a plugin does to a world, it leaves it
    /// well formed.
    fn load(&mut self, world: &mut World)
        requires
            old(world).wf(),
        ensures
            final(world).wf(),
    ;
}

} // verus!
