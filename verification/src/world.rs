//! Defines the [`World`], and types that interact with it.

pub mod executable;
pub mod executable_args;
pub mod mutation;
pub mod plugin;

use crate::datatypes::arenavec::{ArenaVec, Error};
use crate::datatypes::typemap::{max_allocation, PubTypeId, TypeMap};
use crate::datatypes::uniq::{Uniq, UniqKey};
use crate::utils::align_up;
use vstd::bytes::{
    lemma_auto_spec_u64_to_from_le_bytes, spec_u64_from_le_bytes, spec_u64_to_le_bytes,
    u64_from_le_bytes, u64_to_le_bytes,
};
pub use executable::{
    Executable, ExecutableStore, ExecutableWithState, ExecutableWithStateStore,
    TypeErasedExecutable,
};
pub use executable_args::{ExecutableArg, MsgSender, Singleton, Uniqs};
pub use mutation::{Mutation, MutationSet};
pub use plugin::Plugin;
use vstd::prelude::*;

verus! {

/// The bytes in front of the payload of a message: the two halves of the
/// tag of its handler and the length of the payload, eight bytes each.
pub const HEADER_SIZE: usize = 24;

/// One message as it waits in the buffer: the tag of its handler and its
/// payload.
pub struct Frame {
    pub handler: PubTypeId,
    pub payload: Seq<u8>,
}

/// The bytes of one frame: the tag of the handler, the length of the
/// payload, then the payload.
pub open spec fn encode(frame: Frame) -> Seq<u8> {
    spec_u64_to_le_bytes(frame.handler.val.0) + spec_u64_to_le_bytes(frame.handler.val.1)
        + spec_u64_to_le_bytes(frame.payload.len() as u64) + frame.payload
}

/// The bytes of some frames, packed one behind the other.
pub open spec fn encode_all(frames: Seq<Frame>) -> Seq<u8>
    decreases frames.len(),
{
    if frames.len() == 0 {
        Seq::empty()
    } else {
        encode_all(frames.drop_last()) + encode(frames.last())
    }
}

/// The frame that starts at `at` in `buffer`, or `None` where the buffer
/// ends before the frame does.
pub open spec fn frame_at(buffer: Seq<u8>, at: int) -> Option<Frame> {
    if at < 0 || at + HEADER_SIZE > buffer.len() {
        None
    } else {
        let len = spec_u64_from_le_bytes(buffer.subrange(at + 16, at + 24));
        if at + HEADER_SIZE + len > buffer.len() {
            None
        } else {
            Some(
                Frame {
                    handler: PubTypeId {
                        val: (
                            spec_u64_from_le_bytes(buffer.subrange(at, at + 8)),
                            spec_u64_from_le_bytes(buffer.subrange(at + 8, at + 16)),
                        ),
                    },
                    payload: buffer.subrange(at + HEADER_SIZE, at + HEADER_SIZE + len),
                },
            )
        }
    }
}

/// A frame is read back as it was written, whatever stands around it.
pub proof fn lemma_frame_round_trip(before: Seq<u8>, frame: Frame, after: Seq<u8>)
    requires
        frame.payload.len() <= u64::MAX,
    ensures
        encode(frame).len() == HEADER_SIZE + frame.payload.len(),
        frame_at(before + encode(frame) + after, before.len() as int) == Some(frame),
{
    lemma_auto_spec_u64_to_from_le_bytes();
    let buffer = before + encode(frame) + after;
    let at = before.len() as int;
    let first = spec_u64_to_le_bytes(frame.handler.val.0);
    let second = spec_u64_to_le_bytes(frame.handler.val.1);
    let third = spec_u64_to_le_bytes(frame.payload.len() as u64);
    assert(buffer.subrange(at, at + 8) =~= first);
    assert(buffer.subrange(at + 8, at + 16) =~= second);
    assert(buffer.subrange(at + 16, at + 24) =~= third);
    assert(buffer.subrange(at + 24, at + 24 + frame.payload.len()) =~= frame.payload);
}

/// Packing frames one behind the other is the same for a list and for its
/// two halves.
pub proof fn lemma_encode_all_concat(first: Seq<Frame>, second: Seq<Frame>)
    ensures
        encode_all(first + second) == encode_all(first) + encode_all(second),
    decreases second.len(),
{
    if second.len() == 0 {
        assert(first + second =~= first);
        assert(encode_all(first) + encode_all(second) =~= encode_all(first));
    } else {
        lemma_encode_all_concat(first, second.drop_last());
        assert((first + second).drop_last() =~= first + second.drop_last());
        assert((first + second).last() == second.last());
        assert(encode_all(first + second) =~= encode_all(first) + encode_all(second));
    }
}

/// Where one frame lies in a buffer.
#[derive(Clone, Copy, Debug, PartialEq, Eq)]
pub struct FrameLocation {
    /// The tag of the handler of the message.
    pub handler: PubTypeId,
    /// Where the payload starts.
    pub start: usize,
    /// How many bytes the payload has.
    pub len: usize,
}

/// Reads the header of the frame that starts at `at` and says where the
/// payload lies. `None` means that the buffer ends before the frame does.
pub fn read_frame(buffer: &[u8], at: usize) -> (location: Option<FrameLocation>)
    ensures
        match frame_at(buffer@, at as int) {
            Some(frame) => location == Some(
                FrameLocation {
                    handler: frame.handler,
                    start: (at + HEADER_SIZE) as usize,
                    len: frame.payload.len() as usize,
                },
            ) && at + HEADER_SIZE + frame.payload.len() <= buffer@.len(),
            None => location is None,
        },
{
    let total = buffer.len();
    if total < HEADER_SIZE || at > total - HEADER_SIZE {
        return None;
    }
    let first = u64_from_le_bytes(vstd::slice::slice_subrange(buffer, at, at + 8));
    let second = u64_from_le_bytes(vstd::slice::slice_subrange(buffer, at + 8, at + 16));
    let len = u64_from_le_bytes(vstd::slice::slice_subrange(buffer, at + 16, at + 24));
    let room = total - at - HEADER_SIZE;
    if len > room as u64 {
        return None;
    }
    Some(FrameLocation { handler: PubTypeId { val: (first, second) }, start: at + HEADER_SIZE, len: len as usize })
}

/// A message that left the buffer of a [`World`], ready to be handed to its
/// handler.
pub struct Msg {
    /// The tag of the handler of the message.
    pub handler: PubTypeId,
    /// What was registered under that tag when the message left the
    /// buffer, or `None` where nothing was: such a message is dropped.
    pub target: Option<Vec<u8>>,
    /// The bytes of the message.
    pub payload: Vec<u8>,
}

impl Msg {
    /// Takes the bytes of the message.
    pub fn read(self) -> (payload: Vec<u8>)
        ensures
            payload == self.payload,
    {
        self.payload
    }
}

/// Holds everything that the parts of an application share: what plugins
/// were loaded, the singletons, the cached states, the message handlers,
/// and the messages that wait for their handlers.
pub struct World {
    pub plugins: TypeMap,
    pub singletons: TypeMap,
    pub states: Uniq,
    pub msg_handlers: TypeMap,
    /// The messages that wait, packed frame behind frame.
    msg_buffer: ArenaVec<u8>,
    /// The messages that wait, in the order in which they were sent.
    pending: Ghost<Seq<Frame>>,
}

/// The bytes that one frame with a payload of `len` bytes takes.
pub open spec fn frame_size(len: int) -> int {
    HEADER_SIZE + len
}

impl World {
    pub closed spec fn spec_plugins(&self) -> TypeMap {
        self.plugins
    }

    pub closed spec fn spec_singletons(&self) -> TypeMap {
        self.singletons
    }

    pub closed spec fn spec_states(&self) -> Uniq {
        self.states
    }

    pub closed spec fn spec_msg_handlers(&self) -> TypeMap {
        self.msg_handlers
    }

    /// The messages that wait, in the order in which they were sent.
    pub closed spec fn pending(&self) -> Seq<Frame> {
        self.pending@
    }

    /// How many bytes the messages that wait take in the buffer.
    pub closed spec fn spec_buffered(&self) -> int {
        self.msg_buffer@.len() as int
    }

    /// How many bytes the message buffer reserved.
    pub closed spec fn spec_buffer_size(&self) -> int {
        self.msg_buffer.spec_reserved_memory()
    }

    /// Whether the message buffer takes a message of `payload` more bytes:
    /// whether its frame fits in what the buffer reserved.
    pub open spec fn takes(&self, payload: int) -> bool {
        self.spec_buffered() + frame_size(payload) <= self.spec_buffer_size()
    }

    /// The message buffer takes bytes up to its reservation, and holds
    /// the frames of the messages that wait.
    proof fn lemma_room(&self, count: nat)
        requires
            self.wf(),
        ensures
            self.msg_buffer.fitting_pushes(count) == count <==> self.spec_buffered() + count
                <= self.spec_buffer_size(),
            self.spec_buffered() == encode_all(self.pending()).len(),
    {
        broadcast use vstd::layout::layout_of_primitives;

        self.msg_buffer.lemma_room(count);
        assert(count * ArenaVec::<u8>::elem_size() == count) by (nonlinear_arith)
            requires
                ArenaVec::<u8>::elem_size() == 1,
        ;
        assert(self.msg_buffer@.len() * ArenaVec::<u8>::elem_size() == self.msg_buffer@.len())
            by (nonlinear_arith)
            requires
                ArenaVec::<u8>::elem_size() == 1,
        ;
    }

    /// The invariant of the world: its stores are well formed, and the
    /// message buffer holds the frames of the messages that wait, and
    /// nothing else.
    pub closed spec fn wf(&self) -> bool {
        &&& self.plugins.wf()
        &&& self.singletons.wf()
        &&& self.states.wf()
        &&& self.msg_handlers.wf()
        &&& self.msg_buffer.wf()
        &&& self.msg_buffer@ == encode_all(self.pending@)
        &&& forall|i: int|
            0 <= i < self.pending@.len() ==> (#[trigger] self.pending@[i]).payload.len()
                <= usize::MAX
    }

    /// What a well-formed world guarantees about its parts.
    pub proof fn lemma_wf(&self)
        requires
            self.wf(),
        ensures
            self.spec_plugins().wf(),
            self.spec_singletons().wf(),
            self.spec_states().wf(),
            self.spec_msg_handlers().wf(),
    {
    }

    #[inline(always)]
    pub fn new() -> (world: Self)
        ensures
            world.wf(),
            world.pending().len() == 0,
            world.spec_plugins()@ == Map::<PubTypeId, Seq<u8>>::empty(),
            world.spec_singletons()@ == Map::<PubTypeId, Seq<u8>>::empty(),
            world.spec_msg_handlers()@ == Map::<PubTypeId, Seq<u8>>::empty(),
            world.spec_states()@ == Map::<usize, Seq<u8>>::empty(),
            world.spec_plugins().spec_num_entries() == 0,
            world.spec_plugins().spec_used_storage() == 0,
            world.spec_singletons().spec_num_entries() == 0,
            world.spec_singletons().spec_used_storage() == 0,
            world.spec_msg_handlers().spec_num_entries() == 0,
            world.spec_msg_handlers().spec_used_storage() == 0,
            world.spec_buffered() == 0,
            world.spec_buffer_size() == ArenaVec::<u8>::spec_default_reserved_memory(),
            world.spec_plugins().spec_available_entries() == 100,
            world.spec_singletons().spec_available_entries() == 1000,
            world.spec_states().spec_capacity() == 100,
            world.spec_states().spec_used_entries() == 0,
            world.spec_states().spec_data_len() == 0,
            world.spec_states().spec_data_size() == ArenaVec::<u8>::spec_default_reserved_memory(),
            world.spec_msg_handlers().spec_available_entries() == 100,
    {
        Self::with_capacities(100, 1000, 100, 100)
    }

    /// A world whose stores have the given numbers of buckets.
    pub fn with_capacities(
        plugins: usize,
        singletons: usize,
        states: usize,
        msg_handlers: usize,
    ) -> (world: Self)
        requires
            plugins <= max_allocation(),
            singletons <= max_allocation(),
            msg_handlers <= max_allocation(),
        ensures
            world.wf(),
            world.pending().len() == 0,
            world.spec_plugins()@ == Map::<PubTypeId, Seq<u8>>::empty(),
            world.spec_singletons()@ == Map::<PubTypeId, Seq<u8>>::empty(),
            world.spec_msg_handlers()@ == Map::<PubTypeId, Seq<u8>>::empty(),
            world.spec_states()@ == Map::<usize, Seq<u8>>::empty(),
            world.spec_plugins().spec_num_entries() == 0,
            world.spec_plugins().spec_used_storage() == 0,
            world.spec_singletons().spec_num_entries() == 0,
            world.spec_singletons().spec_used_storage() == 0,
            world.spec_msg_handlers().spec_num_entries() == 0,
            world.spec_msg_handlers().spec_used_storage() == 0,
            world.spec_plugins().spec_available_entries() == plugins,
            world.spec_plugins().spec_storage_capacity() == 1000,
            world.spec_singletons().spec_available_entries() == singletons,
            world.spec_singletons().spec_storage_capacity() == 1000000,
            world.spec_states().spec_capacity() == states,
            world.spec_states().spec_used_entries() == 0,
            world.spec_states().spec_data_len() == 0,
            world.spec_states().spec_data_size() == ArenaVec::<u8>::spec_default_reserved_memory(),
            world.spec_msg_handlers().spec_available_entries() == msg_handlers,
            world.spec_msg_handlers().spec_storage_capacity() == 1000,
            world.spec_buffered() == 0,
            world.spec_buffer_size() == ArenaVec::<u8>::spec_default_reserved_memory(),
    {
        let world = Self {
            plugins: TypeMap::new(plugins, 1000),
            singletons: TypeMap::new(singletons, 1000000),
            states: Uniq::with_capacity(states),
            msg_handlers: TypeMap::new(msg_handlers, 1000),
            msg_buffer: ArenaVec::new(),
            pending: Ghost(Seq::empty()),
        };
        assert(world.msg_buffer@ =~= encode_all(world.pending@));
        proof {
            broadcast use vstd::layout::layout_of_primitives;

        }
        world
    }

    /// Stores `bytes`, aligned to `align`, as the singleton of `type_id`.
    /// A singleton of that type that the world holds is overwritten.
    pub fn add_singleton(&mut self, type_id: PubTypeId, align: usize, bytes: &[u8])
        requires
            old(self).wf(),
            align > 0,
            align_up(old(self).spec_singletons().spec_used_storage(), align as int) + bytes@.len()
                < max_allocation(),
            old(self).spec_singletons().spec_num_entries() < max_allocation(),
        ensures
            final(self).wf(),
            old(self).spec_singletons().inserted(
                final(self).spec_singletons(),
                type_id,
                align as int,
                bytes@,
            ),
            final(self).spec_plugins() == old(self).spec_plugins(),
            final(self).spec_states() == old(self).spec_states(),
            final(self).spec_msg_handlers() == old(self).spec_msg_handlers(),
            final(self).pending() == old(self).pending(),
            final(self).spec_buffered() == old(self).spec_buffered(),
            final(self).spec_buffer_size() == old(self).spec_buffer_size(),
    {
        self.singletons.insert(type_id, align, bytes);
    }

    /// The singleton of `type_id`, or `None` where the world holds none.
    pub fn try_get_singleton(&self, type_id: PubTypeId) -> (value: Option<&[u8]>)
        requires
            self.wf(),
        ensures
            self.spec_singletons()@.contains_key(type_id) ==> value is Some && value.unwrap()@
                == self.spec_singletons()@[type_id],
            !self.spec_singletons()@.contains_key(type_id) ==> value is None,
    {
        self.singletons.get(type_id)
    }

    /// The singleton of `type_id`, which the world must hold.
    pub fn get_singleton(&self, type_id: PubTypeId) -> (value: &[u8])
        requires
            self.wf(),
            self.spec_singletons()@.contains_key(type_id),
        ensures
            value@ == self.spec_singletons()@[type_id],
    {
        match self.singletons.get(type_id) {
            Some(value) => value,
            None => vstd::pervasive::unreached(),
        }
    }

    /// Whether the plugin with the tag `plugin` was loaded.
    pub fn has_plugin(&self, plugin: PubTypeId) -> (loaded: bool)
        requires
            self.wf(),
        ensures
            loaded == self.spec_plugins()@.contains_key(plugin),
    {
        self.plugins.contains(plugin)
    }

    /// Registers `target` as what handles the messages that are sent with
    /// the tag `handler`.
    pub fn add_msg_handler(&mut self, handler: PubTypeId, target: &[u8])
        requires
            old(self).wf(),
            align_up(old(self).spec_msg_handlers().spec_used_storage(), 8) + target@.len()
                < max_allocation(),
            old(self).spec_msg_handlers().spec_num_entries() < max_allocation(),
        ensures
            final(self).wf(),
            old(self).spec_msg_handlers().inserted(
                final(self).spec_msg_handlers(),
                handler,
                8,
                target@,
            ),
            final(self).spec_plugins() == old(self).spec_plugins(),
            final(self).spec_states() == old(self).spec_states(),
            final(self).spec_singletons() == old(self).spec_singletons(),
            final(self).pending() == old(self).pending(),
            final(self).spec_buffered() == old(self).spec_buffered(),
            final(self).spec_buffer_size() == old(self).spec_buffer_size(),
    {
        self.msg_handlers.insert(handler, 8, target);
    }

    /// Registers `target` as what handles the messages that are sent with
    /// the tag `handler`, unless the store of the handlers has reached the
    /// largest size that a store can have. Returns whether the handler was
    /// registered.
    pub fn try_add_msg_handler(&mut self, handler: PubTypeId, target: &[u8]) -> (added: bool)
        requires
            old(self).wf(),
        ensures
            final(self).wf(),
            added == (align_up(old(self).spec_msg_handlers().spec_used_storage(), 8)
                + target@.len() < max_allocation() && old(self).spec_msg_handlers().spec_num_entries()
                < max_allocation()),
            added ==> old(self).spec_msg_handlers().inserted(
                final(self).spec_msg_handlers(),
                handler,
                8,
                target@,
            ),
            !added ==> final(self).spec_msg_handlers() == old(self).spec_msg_handlers(),
            final(self).spec_plugins() == old(self).spec_plugins(),
            final(self).spec_states() == old(self).spec_states(),
            final(self).spec_singletons() == old(self).spec_singletons(),
            final(self).pending() == old(self).pending(),
    {
        let most = usize::MAX / 2;
        let used = self.msg_handlers.used_storage();
        proof {
            self.msg_handlers.lemma_wf();
            crate::utils::lemma_align_up(used as int, 8);
        }
        let start = crate::utils::align(used, 8);
        if start < most && target.len() < most - start && self.msg_handlers.num_entries() < most {
            self.msg_handlers.insert(handler, 8, target);
            true
        } else {
            false
        }
    }

    /// Puts a message for `handler` behind the messages that wait, or
    /// reports that the buffer cannot take it and leaves the messages as
    /// they were.
    pub fn try_send_msg(&mut self, handler: PubTypeId, payload: &[u8]) -> (r: Result<(), Error>)
        requires
            old(self).wf(),
        ensures
            final(self).wf(),
            final(self).spec_plugins() == old(self).spec_plugins(),
            final(self).spec_states() == old(self).spec_states(),
            final(self).spec_singletons() == old(self).spec_singletons(),
            final(self).spec_msg_handlers() == old(self).spec_msg_handlers(),
            r is Ok <==> old(self).takes(payload@.len() as int),
            r is Ok ==> final(self).pending() == old(self).pending().push(
                Frame { handler, payload: payload@ },
            ) && final(self).spec_buffered() == old(self).spec_buffered() + frame_size(
                payload@.len() as int,
            ),
            r is Err ==> r == Err::<(), Error>(Error::OutOfMemoryAddresses) && final(self).pending() == old(self).pending()
                && final(self).spec_buffered() == old(self).spec_buffered(),
            final(self).spec_buffer_size() == old(self).spec_buffer_size(),
    {
        let ghost frame = Frame { handler, payload: payload@ };
        let before = self.msg_buffer.len();
        let mut header = u64_to_le_bytes(handler.val.0);
        let mut second = u64_to_le_bytes(handler.val.1);
        let mut third = u64_to_le_bytes(payload.len() as u64);
        header.append(&mut second);
        header.append(&mut third);
        proof {
            lemma_auto_spec_u64_to_from_le_bytes();
            assert(header@ + payload@ =~= encode(frame));
            lemma_fit_split(self.msg_buffer, HEADER_SIZE as nat, payload@.len());
            self.lemma_room(frame_size(payload@.len() as int) as nat);
        }
        let ghost start = self.msg_buffer;
        proof {
            start.lemma_room(HEADER_SIZE as nat);
        }
        let sent = match self.msg_buffer.try_extend_from_bytes(header.as_slice()) {
            Ok(()) => {
                proof {
                    broadcast use vstd::layout::layout_of_primitives;

                    assert(ArenaVec::<u8>::elem_size() == 1);
                    assert(self.msg_buffer.used_memory() == start.used_memory() + HEADER_SIZE
                        * ArenaVec::<u8>::elem_size());
                    self.msg_buffer.lemma_room(payload@.len());
                }
                self.msg_buffer.try_extend_from_bytes(payload)
            },
            Err(e) => Err(e),
        };
        match sent {
            Ok(()) => {
                proof {
                    self.pending = Ghost(self.pending@.push(frame));
                    assert(self.pending@.drop_last() =~= old(self).pending@);
                    assert(header@.take(header@.len() as int) =~= header@);
                    assert(payload@.take(payload@.len() as int) =~= payload@);
                    assert(self.msg_buffer@ =~= start@ + encode(frame));
                }
                Ok(())
            },
            Err(e) => {
                self.msg_buffer.truncate(before);
                proof {
                    assert(self.msg_buffer@ =~= start@);
                }
                Err(e)
            },
        }
    }

    /// Puts a message for `handler` behind the messages that wait. The
    /// buffer must be able to take it.
    pub fn send_msg(&mut self, handler: PubTypeId, payload: &[u8])
        requires
            old(self).wf(),
            old(self).takes(payload@.len() as int),
        ensures
            final(self).wf(),
            final(self).spec_plugins() == old(self).spec_plugins(),
            final(self).spec_states() == old(self).spec_states(),
            final(self).spec_singletons() == old(self).spec_singletons(),
            final(self).spec_msg_handlers() == old(self).spec_msg_handlers(),
            final(self).pending() == old(self).pending().push(Frame { handler, payload: payload@ }),
            final(self).spec_buffered() == old(self).spec_buffered() + frame_size(
                payload@.len() as int,
            ),
            final(self).spec_buffer_size() == old(self).spec_buffer_size(),
    {
        let _ = self.try_send_msg(handler, payload);
    }
}

/// Whether `msg` is the message of `frame` as it leaves a buffer while
/// `handlers` holds the handlers: it has the tag and the bytes of the frame,
/// and as its target what is registered under the tag, if anything is.
pub open spec fn delivers(handlers: TypeMap, frame: Frame, msg: Msg) -> bool {
    &&& msg.handler == frame.handler
    &&& msg.payload@ == frame.payload
    &&& match msg.target {
        Some(target) => handlers@.contains_key(frame.handler) && target@
            == handlers@[frame.handler],
        None => !handlers@.contains_key(frame.handler),
    }
}

impl World {
    /// Takes the messages that wait out of the buffer, which is empty
    /// afterwards, so that a handler may send messages while it handles
    /// one: those wait for the next call. The messages come out in the
    /// order in which they were sent, each with what is registered for its
    /// tag; one for which nothing is registered comes out without a target
    /// and is to be dropped.
    pub fn apply_msgs(&mut self) -> (msgs: Vec<Msg>)
        requires
            old(self).wf(),
        ensures
            final(self).wf(),
            final(self).pending().len() == 0,
            final(self).spec_buffered() == 0,
            final(self).spec_buffer_size() == ArenaVec::<u8>::spec_default_reserved_memory(),
            final(self).spec_plugins() == old(self).spec_plugins(),
            final(self).spec_states() == old(self).spec_states(),
            final(self).spec_singletons() == old(self).spec_singletons(),
            final(self).spec_msg_handlers() == old(self).spec_msg_handlers(),
            msgs@.len() == old(self).pending().len(),
            forall|i: int|
                0 <= i < msgs@.len() ==> delivers(
                    old(self).spec_msg_handlers(),
                    old(self).pending()[i],
                    #[trigger] msgs@[i],
                ),
    {
        let ghost frames = self.pending@;
        let mut buffer: ArenaVec<u8> = ArenaVec::new();
        core::mem::swap(&mut self.msg_buffer, &mut buffer);
        proof {
            self.pending = Ghost(Seq::empty());
            assert(self.msg_buffer@ =~= encode_all(self.pending@));
            assert(frames.take(0) =~= Seq::<Frame>::empty());
        }
        let bytes = buffer.as_slice();
        let mut msgs: Vec<Msg> = Vec::new();
        let mut at: usize = 0;
        while at < bytes.len()
            invariant
                self.msg_handlers.wf(),
                self.msg_handlers == old(self).msg_handlers,
                bytes@ == encode_all(frames),
                forall|i: int|
                    0 <= i < frames.len() ==> (#[trigger] frames[i]).payload.len() <= usize::MAX,
                msgs@.len() <= frames.len(),
                at == encode_all(frames.take(msgs@.len() as int)).len(),
                at <= bytes@.len(),
                forall|i: int|
                    0 <= i < msgs@.len() ==> delivers(
                        self.msg_handlers,
                        frames[i],
                        #[trigger] msgs@[i],
                    ),
            decreases bytes@.len() - at,
        {
            let ghost done = msgs@.len() as int;
            proof {
                if done == frames.len() {
                    assert(frames.take(done) =~= frames);
                }
                lemma_frame_in_buffer(frames, done);
            }
            match read_frame(bytes, at) {
                Some(location) => {
                    let payload = vstd::slice::slice_to_vec(
                        vstd::slice::slice_subrange(
                            bytes,
                            location.start,
                            location.start + location.len,
                        ),
                    );
                    let target = match self.msg_handlers.get(location.handler) {
                        Some(target) => Some(vstd::slice::slice_to_vec(target)),
                        None => None,
                    };
                    msgs.push(Msg { handler: location.handler, target, payload });
                    at = location.start + location.len;
                },
                None => {
                    assert(false);
                },
            }
        }
        proof {
            if msgs@.len() < frames.len() {
                lemma_frame_in_buffer(frames, msgs@.len() as int);
            }
        }
        msgs
    }
}

impl World {
    /// Whether `after` is this world after a message for `handler` was
    /// sent.
    pub open spec fn sent(&self, after: Self, handler: PubTypeId, payload: Seq<u8>) -> bool {
        &&& after.spec_msg_handlers() == self.spec_msg_handlers()
        &&& after.pending() == self.pending().push(Frame { handler, payload })
    }

    /// Whether `msgs` are the messages that leave the buffer of this world
    /// when they are applied.
    pub open spec fn drained(&self, msgs: Seq<Msg>) -> bool {
        &&& msgs.len() == self.pending().len()
        &&& forall|i: int|
            0 <= i < msgs.len() ==> delivers(
                self.spec_msg_handlers(),
                self.pending()[i],
                #[trigger] msgs[i],
            )
    }

    /// Message ordering: three messages, sent to a world in which none
    /// waited, for handlers that are registered, leave the buffer in the
    /// order in which they were sent, each with the bytes that were sent
    /// and with the target that is registered for it.
    pub proof fn lemma_sent_in_order(
        start: Self,
        one: Self,
        two: Self,
        three: Self,
        first: Frame,
        second: Frame,
        third: Frame,
        msgs: Seq<Msg>,
    )
        requires
            start.pending().len() == 0,
            start.spec_msg_handlers()@.contains_key(first.handler),
            start.spec_msg_handlers()@.contains_key(second.handler),
            start.spec_msg_handlers()@.contains_key(third.handler),
            start.sent(one, first.handler, first.payload),
            one.sent(two, second.handler, second.payload),
            two.sent(three, third.handler, third.payload),
            three.drained(msgs),
        ensures
            msgs.len() == 3,
            msgs[0].handler == first.handler && msgs[0].payload@ == first.payload,
            msgs[1].handler == second.handler && msgs[1].payload@ == second.payload,
            msgs[2].handler == third.handler && msgs[2].payload@ == third.payload,
            msgs[0].target is Some && msgs[0].target.unwrap()@
                == start.spec_msg_handlers()@[first.handler],
            msgs[1].target is Some && msgs[1].target.unwrap()@
                == start.spec_msg_handlers()@[second.handler],
            msgs[2].target is Some && msgs[2].target.unwrap()@
                == start.spec_msg_handlers()@[third.handler],
    {
        assert(three.pending()[0] == first);
        assert(three.pending()[1] == second);
        assert(three.pending()[2] == third);
        assert(delivers(three.spec_msg_handlers(), three.pending()[0], msgs[0]));
        assert(delivers(three.spec_msg_handlers(), three.pending()[1], msgs[1]));
        assert(delivers(three.spec_msg_handlers(), three.pending()[2], msgs[2]));
    }

    /// Undelivered messages are safe: a message for which nothing is
    /// registered leaves the buffer without a target, and the message
    /// behind it leaves the buffer whole, with its target.
    pub proof fn lemma_unhandled_is_skipped(
        start: Self,
        one: Self,
        two: Self,
        lost: Frame,
        kept: Frame,
        msgs: Seq<Msg>,
    )
        requires
            start.pending().len() == 0,
            !start.spec_msg_handlers()@.contains_key(lost.handler),
            start.spec_msg_handlers()@.contains_key(kept.handler),
            start.sent(one, lost.handler, lost.payload),
            one.sent(two, kept.handler, kept.payload),
            two.drained(msgs),
        ensures
            msgs.len() == 2,
            msgs[0].target is None,
            msgs[1].handler == kept.handler,
            msgs[1].payload@ == kept.payload,
            msgs[1].target is Some && msgs[1].target.unwrap()@
                == start.spec_msg_handlers()@[kept.handler],
    {
        assert(two.pending()[0] == lost);
        assert(two.pending()[1] == kept);
        assert(delivers(two.spec_msg_handlers(), two.pending()[0], msgs[0]));
        assert(delivers(two.spec_msg_handlers(), two.pending()[1], msgs[1]));
    }

    /// Deferral: what is sent after the messages were applied waits for
    /// the next time, and is alone then.
    pub proof fn lemma_sent_while_draining(
        drained: Self,
        after: Self,
        handler: PubTypeId,
        payload: Seq<u8>,
    )
        requires
            drained.pending().len() == 0,
            drained.sent(after, handler, payload),
        ensures
            after.pending() == seq![Frame { handler, payload }],
    {
        assert(after.pending() =~= seq![Frame { handler, payload }]);
    }

    /// The singleton of `type_id` for change in place, or `None` where the
    /// world holds none.
    pub fn try_get_singleton_mut(&mut self, type_id: PubTypeId) -> (value: Option<&mut [u8]>)
        requires
            old(self).wf(),
        ensures
            !old(self).spec_singletons()@.contains_key(type_id) ==> value is None && *final(self)
                == *old(self),
            old(self).spec_singletons()@.contains_key(type_id) ==> value is Some
                && value.unwrap()@ == old(self).spec_singletons()@[type_id] && (final(value.unwrap())@.len() == value.unwrap()@.len() ==> {
                &&& final(self).wf()
                &&& final(self).spec_singletons()@ == old(self).spec_singletons()@.insert(
                    type_id,
                    final(value.unwrap())@,
                )
                &&& final(self).spec_plugins() == old(self).spec_plugins()
                &&& final(self).spec_states() == old(self).spec_states()
                &&& final(self).spec_msg_handlers() == old(self).spec_msg_handlers()
                &&& final(self).pending() == old(self).pending()
            }),
    {
        self.singletons.get_mut(type_id)
    }

    /// The singleton of `type_id`, which the world must hold, for change in
    /// place.
    pub fn get_singleton_mut(&mut self, type_id: PubTypeId) -> (value: &mut [u8])
        requires
            old(self).wf(),
            old(self).spec_singletons()@.contains_key(type_id),
        ensures
            value@ == old(self).spec_singletons()@[type_id],
            final(value)@.len() == value@.len() ==> {
                &&& final(self).wf()
                &&& final(self).spec_singletons()@ == old(self).spec_singletons()@.insert(
                    type_id,
                    final(value)@,
                )
                &&& final(self).spec_plugins() == old(self).spec_plugins()
                &&& final(self).spec_states() == old(self).spec_states()
                &&& final(self).spec_msg_handlers() == old(self).spec_msg_handlers()
                &&& final(self).pending() == old(self).pending()
            },
    {
        match self.singletons.get_mut(type_id) {
            Some(value) => value,
            None => vstd::pervasive::unreached(),
        }
    }

    /// Hands a message to its handler at once, ahead of the messages that
    /// wait, and applies those behind it: the message comes out first, if
    /// anything is registered for its tag, and then the messages that
    /// waited.
    pub fn send_msg_now(&mut self, handler: PubTypeId, payload: &[u8]) -> (msgs: Vec<Msg>)
        requires
            old(self).wf(),
        ensures
            final(self).wf(),
            final(self).pending().len() == 0,
            final(self).spec_plugins() == old(self).spec_plugins(),
            final(self).spec_states() == old(self).spec_states(),
            final(self).spec_singletons() == old(self).spec_singletons(),
            final(self).spec_msg_handlers() == old(self).spec_msg_handlers(),
            old(self).spec_msg_handlers()@.contains_key(handler) ==> msgs@.len() == old(self).pending().len() + 1 && delivers(
                old(self).spec_msg_handlers(),
                Frame { handler, payload: payload@ },
                msgs@[0],
            ) && old(self).drained(msgs@.skip(1)),
            !old(self).spec_msg_handlers()@.contains_key(handler) ==> old(self).drained(msgs@),
    {
        let now = match self.msg_handlers.get(handler) {
            Some(target) => Some(
                Msg {
                    handler,
                    target: Some(vstd::slice::slice_to_vec(target)),
                    payload: vstd::slice::slice_to_vec(payload),
                },
            ),
            None => None,
        };
        let mut waiting = self.apply_msgs();
        match now {
            Some(msg) => {
                let ghost drained = waiting@;
                waiting.insert(0, msg);
                proof {
                    assert(waiting@.skip(1) =~= drained);
                }
                waiting
            },
            None => waiting,
        }
    }
}

impl World {
    /// The cached state of `key` for change in place. Where the world holds
    /// none, what `default` returns becomes the state of the key first. The
    /// store of the states must be able to take it.
    pub fn get_state<F: FnOnce() -> Vec<u8>>(&mut self, key: UniqKey, default: F) -> (value:
        &mut [u8])
        requires
            old(self).wf(),
            old(self).spec_states().spec_capacity() > 0,
            !old(self).spec_states()@.contains_key(key.spec_key()) ==> call_requires(default, ()),
            !old(self).spec_states()@.contains_key(key.spec_key()) ==> forall|first: Vec<u8>|
                call_ensures(default, (), first) ==> old(self).spec_states().can_store(
                    key.spec_key(),
                    first@.len(),
                ),
        ensures
            old(self).spec_states()@.contains_key(key.spec_key()) ==> value@ == old(self).spec_states()@[key.spec_key()],
            !old(self).spec_states()@.contains_key(key.spec_key()) ==> exists|first: Vec<u8>| #[trigger]
                call_ensures(default, (), first) && value@ == first@,
            final(value)@.len() == value@.len() ==> {
                &&& final(self).wf()
                &&& final(self).spec_states()@ == old(self).spec_states()@.insert(
                    key.spec_key(),
                    final(value)@,
                )
                &&& final(self).spec_plugins() == old(self).spec_plugins()
                &&& final(self).spec_singletons() == old(self).spec_singletons()
                &&& final(self).spec_msg_handlers() == old(self).spec_msg_handlers()
                &&& final(self).pending() == old(self).pending()
            },
    {
        self.states.get(key, default)
    }

    /// Loads `plugin`, unless the plugin with the tag `id` was loaded
    /// before, and records under that tag that it was. Returns whether the
    /// plugin was loaded now.
    ///
    /// The plugin is recorded after it was loaded, with no bytes of its
    /// own. It goes unrecorded where the store of the plugins has reached
    /// the largest size that a store can have.
    pub fn add_plugin<P: Plugin>(&mut self, id: PubTypeId, plugin: P) -> (loaded: bool)
        requires
            old(self).wf(),
        ensures
            final(self).wf(),
            loaded == !old(self).spec_plugins()@.contains_key(id),
            !loaded ==> *final(self) == *old(self),
            loaded ==> final(self).spec_plugins()@.contains_key(id) || final(self).spec_plugins().spec_used_storage() >= max_allocation() - 1 || final(self).spec_plugins().spec_num_entries() >= max_allocation() - 1,
            loaded ==> exists|loader: &mut P, inner: &mut World|
                {
                    &&& *loader == plugin
                    &&& *inner == *old(self)
                    &&& #[trigger] call_ensures(P::load, (loader, inner), ())
                    &&& final(inner).records(*final(self), id)
                },
    {
        let mut plugin = plugin;
        if self.plugins.contains(id) {
            return false;
        }
        plugin.load(self);
        let most = usize::MAX / 2;
        if self.plugins.used_storage() < most - 1 && self.plugins.num_entries() < most - 1 {
            let nothing: [u8; 0] = [];
            proof {
                assert(nothing@ =~= Seq::<u8>::empty());
            }
            self.plugins.insert(id, 1, nothing.as_slice());
        }
        true
    }

    /// Whether `after` is this world after it recorded that the plugin
    /// with the tag `id` was loaded: the store of the plugins holds the tag
    /// with no bytes, unless it has reached the largest size that a store
    /// can have, and the rest of the world is as it was.
    pub open spec fn records(&self, after: Self, id: PubTypeId) -> bool {
        &&& if self.spec_plugins().spec_used_storage() < max_allocation() - 1
            && self.spec_plugins().spec_num_entries() < max_allocation() - 1 {
            self.spec_plugins().inserted(after.spec_plugins(), id, 1, Seq::<u8>::empty())
        } else {
            after.spec_plugins() == self.spec_plugins()
        }
        &&& after.spec_states() == self.spec_states()
        &&& after.spec_singletons() == self.spec_singletons()
        &&& after.spec_msg_handlers() == self.spec_msg_handlers()
        &&& after.pending() == self.pending()
    }

    /// Run an [`Executable`] with the data in this [`World`], then
    /// immediately take the messages out of the buffer that wait there,
    /// those that it sent among them.
    ///
    /// The executable runs in the world as it is handed in, and what it
    /// gives comes back first. The messages that wait in the world as the
    /// executable left it come back second, and but for its buffer the
    /// world stays as the executable left it.
    pub fn execute<E: Executable>(&mut self, executable: E) -> (out: (E::Output, Vec<Msg>))
        requires
            old(self).wf(),
        ensures
            final(self).wf(),
            final(self).pending().len() == 0,
            final(self).spec_buffered() == 0,
            exists|inner: &mut World, given: E::Output|
                {
                    &&& *inner == *old(self)
                    &&& #[trigger] call_ensures(E::execute, (executable, inner), given)
                    &&& given == out.0
                    &&& final(inner).drained(out.1@)
                    &&& final(self).spec_plugins() == final(inner).spec_plugins()
                    &&& final(self).spec_states() == final(inner).spec_states()
                    &&& final(self).spec_singletons() == final(inner).spec_singletons()
                    &&& final(self).spec_msg_handlers() == final(inner).spec_msg_handlers()
                },
    {
        let out = executable.execute(self);
        let msgs = self.apply_msgs();
        (out, msgs)
    }

    /// Run an [`Executable`] with the data in this [`World`], and leave the
    /// messages that it sent in the buffer: the world changes as the
    /// executable changes it, and what comes back is what it gives.
    pub fn execute_immut<E: Executable>(&mut self, executable: E) -> (out: E::Output)
        requires
            old(self).wf(),
        ensures
            final(self).wf(),
            exists|inner: &mut World|
                *inner == *old(self) && *final(inner) == *final(self) && #[trigger] call_ensures(
                    E::execute,
                    (executable, inner),
                    out,
                ),
    {
        executable.execute(self)
    }
}

impl Default for World {
    fn default() -> (world: Self)
        ensures
            world.wf(),
            world.pending().len() == 0,
            world.spec_plugins()@ == Map::<PubTypeId, Seq<u8>>::empty(),
            world.spec_singletons()@ == Map::<PubTypeId, Seq<u8>>::empty(),
            world.spec_msg_handlers()@ == Map::<PubTypeId, Seq<u8>>::empty(),
            world.spec_states()@ == Map::<usize, Seq<u8>>::empty(),
            world.spec_plugins().spec_num_entries() == 0,
            world.spec_plugins().spec_used_storage() == 0,
            world.spec_singletons().spec_num_entries() == 0,
            world.spec_singletons().spec_used_storage() == 0,
            world.spec_msg_handlers().spec_num_entries() == 0,
            world.spec_msg_handlers().spec_used_storage() == 0,
            world.spec_buffered() == 0,
            world.spec_buffer_size() == ArenaVec::<u8>::spec_default_reserved_memory(),
            world.spec_plugins().spec_available_entries() == 100,
            world.spec_singletons().spec_available_entries() == 1000,
            world.spec_states().spec_capacity() == 100,
            world.spec_states().spec_used_entries() == 0,
            world.spec_states().spec_data_len() == 0,
            world.spec_states().spec_data_size() == ArenaVec::<u8>::spec_default_reserved_memory(),
            world.spec_msg_handlers().spec_available_entries() == 100,
    {
        Self::new()
    }
}

/// Frame `idx` of some frames lies in their bytes behind the frames in
/// front of it.
pub proof fn lemma_frame_in_buffer(frames: Seq<Frame>, idx: int)
    requires
        0 <= idx < frames.len(),
        frames[idx].payload.len() <= u64::MAX,
    ensures
        frame_at(encode_all(frames), encode_all(frames.take(idx)).len() as int) == Some(frames[idx]),
        encode_all(frames.take(idx + 1)).len() == encode_all(frames.take(idx)).len() + HEADER_SIZE
            + frames[idx].payload.len(),
        encode_all(frames.take(idx + 1)).len() <= encode_all(frames).len(),
{
    let front = frames.take(idx);
    let back = frames.skip(idx + 1);
    assert(frames =~= frames.take(idx + 1) + back);
    assert(frames.take(idx + 1).drop_last() =~= front);
    lemma_encode_all_concat(frames.take(idx + 1), back);
    lemma_frame_round_trip(encode_all(front), frames[idx], encode_all(back));
}

/// As many of some bytes fit as of their first part, and then of the rest.
pub proof fn lemma_fit_split(buffer: ArenaVec<u8>, first: nat, second: nat)
    requires
        buffer.wf(),
    ensures
        buffer.fitting_pushes(first + second) == first + second <==> buffer.fitting_pushes(first)
            == first && crate::datatypes::arenavec::pushes_that_fit(
            buffer.used_memory() + first * ArenaVec::<u8>::elem_size(),
            buffer.capacity_after(first),
            buffer.spec_reserved_memory(),
            ArenaVec::<u8>::elem_size(),
            buffer.spec_page_size(),
            second,
        ) == second,
{
    crate::datatypes::arenavec::lemma_fit_concat(
        buffer.used_memory(),
        buffer.spec_capacity(),
        buffer.spec_reserved_memory(),
        ArenaVec::<u8>::elem_size(),
        buffer.spec_page_size(),
        first,
        second,
    );
}

} // verus!
