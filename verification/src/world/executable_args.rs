//! Types that can be used as arguments in [`Executable`]s.
//!
//! [`Executable`]: crate::world::Executable

use crate::datatypes::arenavec::Error;
use crate::datatypes::typemap::PubTypeId;
use crate::datatypes::uniq::UniqKey;
use crate::world::{frame_size, Frame, World};
use vstd::prelude::*;

verus! {

/// Types that can be used as arguments for executables: views of a
/// [`World`] that are built for one run and given back after it.
pub trait ExecutableArg {
    type Arg<'a>;

    /// Builds the argument from the world that it is a view of.
    fn build<'a>(world: &'a mut World) -> (arg: Self::Arg<'a>)
        requires
            old(world).wf(),
    ;
}

/// Gets a singleton from the [`World`].
pub struct Singleton<'a, T> {
    val: &'a T,
}

impl<'a, T> Singleton<'a, T> {
    /// The singleton that the argument stands for.
    pub closed spec fn spec_val(&self) -> T {
        *self.val
    }

    pub fn new(val: &'a T) -> (singleton: Self)
        ensures
            singleton.spec_val() == *val,
    {
        Self { val }
    }

    /// The singleton that the argument stands for.
    pub fn get(&self) -> (val: &'a T)
        ensures
            *val == self.spec_val(),
    {
        self.val
    }
}

/// Sends messages to the [`World`].
pub struct MsgSender<'a>(pub &'a mut World);

impl ExecutableArg for MsgSender<'_> {
    type Arg<'a> = MsgSender<'a>;

    fn build<'a>(world: &'a mut World) -> (arg: Self::Arg<'a>)
        ensures
            *arg.0 == *old(world),
            *final(arg.0) == *final(world),
    {
        MsgSender(world)
    }
}

impl MsgSender<'_> {
    /// Puts a message for `handler` behind the messages that wait. The
    /// buffer of the world must be able to take it.
    pub fn send(&mut self, handler: PubTypeId, payload: &[u8])
        requires
            old(self).0.wf(),
            old(self).0.takes(payload@.len() as int),
        ensures
            *final(final(self).0) == *final(old(self).0),
            final(self).0.wf(),
            old(self).0.sent(*final(self).0, handler, payload@),
            final(self).0.spec_plugins() == old(self).0.spec_plugins(),
            final(self).0.spec_states() == old(self).0.spec_states(),
            final(self).0.spec_singletons() == old(self).0.spec_singletons(),
    {
        self.0.send_msg(handler, payload);
    }
}

/// Gets cached states from the [`World`].
pub struct Uniqs<'a>(pub &'a mut World);

impl ExecutableArg for Uniqs<'_> {
    type Arg<'a> = Uniqs<'a>;

    fn build<'a>(world: &'a mut World) -> (arg: Self::Arg<'a>)
        ensures
            *arg.0 == *old(world),
            *final(arg.0) == *final(world),
    {
        Uniqs(world)
    }
}

impl Uniqs<'_> {
    /// The cached state of `key` for change in place; `size` zero bytes
    /// where the world holds none yet. The store of the states must be able
    /// to take them.
    pub fn get(&mut self, key: UniqKey, size: usize) -> (value: &mut [u8])
        requires
            old(self).0.wf(),
            old(self).0.spec_states().spec_capacity() > 0,
            !old(self).0.spec_states()@.contains_key(key.spec_key()) ==> old(self).0.spec_states().can_store(key.spec_key(), size as nat),
        ensures
            *final(final(self).0) == *final(old(self).0),
            value@ == (if old(self).0.spec_states()@.contains_key(key.spec_key()) {
                old(self).0.spec_states()@[key.spec_key()]
            } else {
                Seq::new(size as nat, |i: int| 0u8)
            }),
            final(value)@.len() == value@.len() ==> {
                &&& final(self).0.wf()
                &&& final(self).0.spec_states()@ == old(self).0.spec_states()@.insert(
                    key.spec_key(),
                    final(value)@,
                )
                &&& final(self).0.spec_plugins() == old(self).0.spec_plugins()
                &&& final(self).0.spec_singletons() == old(self).0.spec_singletons()
                &&& final(self).0.spec_msg_handlers() == old(self).0.spec_msg_handlers()
                &&& final(self).0.pending() == old(self).0.pending()
            },
    {
        let zeroed = || -> (bytes: Vec<u8>)
            ensures
                bytes@ == Seq::new(size as nat, |i: int| 0u8),
            {
                let bytes = vec![0u8; size];
                assert(bytes@ =~= Seq::new(size as nat, |i: int| 0u8));
                bytes
            };
        self.0.get_state(key, zeroed)
    }

    /// The cached state of `key` for change in place; what `default`
    /// returns where the world holds none yet. The store of the states
    /// must be able to take it.
    pub fn get_or_insert<F: FnOnce() -> Vec<u8>>(&mut self, key: UniqKey, default: F) -> (value:
        &mut [u8])
        requires
            old(self).0.wf(),
            old(self).0.spec_states().spec_capacity() > 0,
            !old(self).0.spec_states()@.contains_key(key.spec_key()) ==> call_requires(
                default,
                (),
            ),
            !old(self).0.spec_states()@.contains_key(key.spec_key()) ==> forall|first: Vec<u8>|
                call_ensures(default, (), first) ==> old(self).0.spec_states().can_store(
                    key.spec_key(),
                    first@.len(),
                ),
        ensures
            *final(final(self).0) == *final(old(self).0),
            old(self).0.spec_states()@.contains_key(key.spec_key()) ==> value@ == old(self).0.spec_states()@[key.spec_key()],
            !old(self).0.spec_states()@.contains_key(key.spec_key()) ==> exists|first: Vec<u8>| #[trigger]
                call_ensures(default, (), first) && value@ == first@,
            final(value)@.len() == value@.len() ==> {
                &&& final(self).0.wf()
                &&& final(self).0.spec_states()@ == old(self).0.spec_states()@.insert(
                    key.spec_key(),
                    final(value)@,
                )
                &&& final(self).0.spec_plugins() == old(self).0.spec_plugins()
                &&& final(self).0.spec_singletons() == old(self).0.spec_singletons()
                &&& final(self).0.spec_msg_handlers() == old(self).0.spec_msg_handlers()
                &&& final(self).0.pending() == old(self).0.pending()
            },
    {
        self.0.get_state(key, default)
    }
}

} // verus!
