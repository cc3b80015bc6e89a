//! A Wayland client as a state machine: the events that a compositor
//! sends are read from the bytes of its messages, and each event says what
//! the client does next. The program around the library owns the socket:
//! it hands the messages in and carries the actions out.

use crate::datatypes::arenavec::ArenaVec;
use crate::ui::wire::{
    string_at, string_size, wire_string, WireDecoder, WireMsgHeader, WriteWire, WIRE_HEADER_SIZE,
};
use vstd::bytes::{spec_u32_from_le_bytes, spec_u32_to_le_bytes};
use vstd::prelude::*;
use vstd::string::StringSliceAdditionalSpecFns;
use vstd::utf8::encode_utf8;

verus! {

/// The interfaces that the client speaks.
#[derive(Clone, Copy, Debug, PartialEq, Eq, Structural)]
pub enum SomeObject {
    Display,
    Registry,
    Callback,
    Surface,
    Shm,
    Compositor,
    XdgWmBase,
    XdgSurface,
}

impl SomeObject {
    /// The version of the interface that the client speaks.
    pub open spec fn spec_version(self) -> u32 {
        match self {
            SomeObject::Surface => 6,
            SomeObject::Compositor => 6,
            SomeObject::XdgWmBase => 6,
            SomeObject::XdgSurface => 6,
            _ => 1,
        }
    }

    /// The version of the interface that the client speaks.
    pub fn version(self) -> (version: u32)
        ensures
            version == self.spec_version(),
    {
        match self {
            SomeObject::Surface => 6,
            SomeObject::Compositor => 6,
            SomeObject::XdgWmBase => 6,
            SomeObject::XdgSurface => 6,
            _ => 1,
        }
    }

    /// The name of the interface on the wire.
    pub open spec fn spec_ffi_name(self) -> Seq<char> {
        match self {
            SomeObject::Display => "wl_display"@,
            SomeObject::Registry => "wl_registry"@,
            SomeObject::Callback => "wl_callback"@,
            SomeObject::Surface => "wl_surface"@,
            SomeObject::Shm => "wl_shm"@,
            SomeObject::Compositor => "wl_compositor"@,
            SomeObject::XdgWmBase => "xdg_wm_base"@,
            SomeObject::XdgSurface => "xdg_surface"@,
        }
    }

    /// The name of the interface as the bytes that go on the wire.
    pub open spec fn name_bytes(self) -> Seq<u8> {
        encode_utf8(self.spec_ffi_name())
    }

    /// The name of the interface on the wire. It is made of six to
    /// thirteen letters and underscores.
    pub fn ffi_name(self) -> (name: &'static str)
        ensures
            name@ == self.spec_ffi_name(),
            name.spec_bytes() == self.name_bytes(),
            6 <= self.name_bytes().len() <= 13,
    {
        let name = match self {
            SomeObject::Display => "wl_display",
            SomeObject::Registry => "wl_registry",
            SomeObject::Callback => "wl_callback",
            SomeObject::Surface => "wl_surface",
            SomeObject::Shm => "wl_shm",
            SomeObject::Compositor => "wl_compositor",
            SomeObject::XdgWmBase => "xdg_wm_base",
            SomeObject::XdgSurface => "xdg_surface",
        };
        proof {
            reveal_strlit("wl_display");
            reveal_strlit("wl_registry");
            reveal_strlit("wl_callback");
            reveal_strlit("wl_surface");
            reveal_strlit("wl_shm");
            reveal_strlit("wl_compositor");
            reveal_strlit("xdg_wm_base");
            reveal_strlit("xdg_surface");
            vstd::string::is_ascii_spec_bytes(name);
        }
        name
    }
}

/// An event of one of the interfaces. Text comes as the bytes that were
/// sent.
#[derive(Debug, PartialEq, Eq)]
pub enum SomeEvent {
    /// `wl_display`: a fatal error.
    Error { object_id: u32, code: u32, message: Vec<u8> },
    /// `wl_display`: the compositor is done with an object.
    DeleteId { id: u32 },
    /// `wl_registry`: the compositor offers a global.
    Global { name: u32, interface: Vec<u8>, version: u32 },
    /// `wl_registry`: the compositor takes a global back.
    GlobalRemove { name: u32 },
    /// `wl_callback`: what the callback waited for is done.
    Done { callback_data: u32 },
    /// `wl_shm`: a pixel format that the compositor takes.
    Format { format: u32 },
    /// `xdg_wm_base`: the compositor asks whether the client is alive.
    Ping { serial: u32 },
}

/// An event as its plain values.
pub enum EventSpec {
    Error { object_id: u32, code: u32, message: Seq<u8> },
    DeleteId { id: u32 },
    Global { name: u32, interface: Seq<u8>, version: u32 },
    GlobalRemove { name: u32 },
    Done { callback_data: u32 },
    Format { format: u32 },
    Ping { serial: u32 },
}

impl SomeEvent {
    /// The event as its plain values.
    pub open spec fn view(&self) -> EventSpec {
        match *self {
            SomeEvent::Error { object_id, code, message } => EventSpec::Error {
                object_id,
                code,
                message: message@,
            },
            SomeEvent::DeleteId { id } => EventSpec::DeleteId { id },
            SomeEvent::Global { name, interface, version } => EventSpec::Global {
                name,
                interface: interface@,
                version,
            },
            SomeEvent::GlobalRemove { name } => EventSpec::GlobalRemove { name },
            SomeEvent::Done { callback_data } => EventSpec::Done { callback_data },
            SomeEvent::Format { format } => EventSpec::Format { format },
            SomeEvent::Ping { serial } => EventSpec::Ping { serial },
        }
    }
}

/// The number at `at` in `bytes`, or `None` where the bytes end before it.
pub open spec fn u32_at(bytes: Seq<u8>, at: int) -> Option<u32> {
    if 0 <= at && at + 4 <= bytes.len() {
        Some(spec_u32_from_le_bytes(bytes.subrange(at, at + 4)))
    } else {
        None
    }
}

/// The event that a message for an object of the interface `object`
/// stands for: the opcode in its header says which event of the interface
/// it is, and its arguments follow the header. `None` where the interface
/// has no event with that opcode, or the message ends before the
/// arguments do.
pub open spec fn event_of(object: SomeObject, message: Seq<u8>) -> Option<EventSpec> {
    if message.len() < WIRE_HEADER_SIZE {
        None
    } else {
        let opcode = WireMsgHeader::spec_decode(message).opcode;
        match object {
            SomeObject::Display => if opcode == 0 {
                match (u32_at(message, 8), u32_at(message, 12), string_at(message, 16)) {
                    (Some(object_id), Some(code), Some(text)) => Some(
                        EventSpec::Error { object_id, code, message: text.0 },
                    ),
                    _ => None,
                }
            } else if opcode == 1 {
                match u32_at(message, 8) {
                    Some(id) => Some(EventSpec::DeleteId { id }),
                    None => None,
                }
            } else {
                None
            },
            SomeObject::Registry => if opcode == 0 {
                match (u32_at(message, 8), string_at(message, 12)) {
                    (Some(name), Some(text)) => match u32_at(message, text.1) {
                        Some(version) => Some(
                            EventSpec::Global { name, interface: text.0, version },
                        ),
                        None => None,
                    },
                    _ => None,
                }
            } else if opcode == 1 {
                match u32_at(message, 8) {
                    Some(name) => Some(EventSpec::GlobalRemove { name }),
                    None => None,
                }
            } else {
                None
            },
            SomeObject::Callback => if opcode == 0 {
                match u32_at(message, 8) {
                    Some(callback_data) => Some(EventSpec::Done { callback_data }),
                    None => None,
                }
            } else {
                None
            },
            SomeObject::Shm => if opcode == 0 {
                match u32_at(message, 8) {
                    Some(format) => Some(EventSpec::Format { format }),
                    None => None,
                }
            } else {
                None
            },
            SomeObject::XdgWmBase => if opcode == 0 {
                match u32_at(message, 8) {
                    Some(serial) => Some(EventSpec::Ping { serial }),
                    None => None,
                }
            } else {
                None
            },
            _ => None,
        }
    }
}

/// Reads the event that `message` stands for, sent for an object of the
/// interface `object`.
pub fn decode_event(object: SomeObject, message: &[u8]) -> (event: Option<SomeEvent>)
    ensures
        match event_of(object, message@) {
            Some(spec) => event is Some && event.unwrap().view() == spec,
            None => event is None,
        },
{
    let header = match WireMsgHeader::decode(message) {
        Some(header) => header,
        None => {
            return None;
        },
    };
    let mut decoder = WireDecoder::new(message);
    match object {
        SomeObject::Display => {
            if header.opcode == 0 {
                let object_id = decoder.read_u32();
                let code = decoder.read_u32();
                let text = decoder.read_string_bytes();
                match (object_id, code, text) {
                    (Some(object_id), Some(code), Some(text)) => Some(
                        SomeEvent::Error {
                            object_id,
                            code,
                            message: vstd::slice::slice_to_vec(text),
                        },
                    ),
                    _ => None,
                }
            } else if header.opcode == 1 {
                match decoder.read_u32() {
                    Some(id) => Some(SomeEvent::DeleteId { id }),
                    None => None,
                }
            } else {
                None
            }
        },
        SomeObject::Registry => {
            if header.opcode == 0 {
                let name = decoder.read_u32();
                let text = decoder.read_string_bytes();
                match (name, text) {
                    (Some(name), Some(text)) => match decoder.read_u32() {
                        Some(version) => Some(
                            SomeEvent::Global {
                                name,
                                interface: vstd::slice::slice_to_vec(text),
                                version,
                            },
                        ),
                        None => None,
                    },
                    _ => None,
                }
            } else if header.opcode == 1 {
                match decoder.read_u32() {
                    Some(name) => Some(SomeEvent::GlobalRemove { name }),
                    None => None,
                }
            } else {
                None
            }
        },
        SomeObject::Callback => {
            if header.opcode == 0 {
                match decoder.read_u32() {
                    Some(callback_data) => Some(SomeEvent::Done { callback_data }),
                    None => None,
                }
            } else {
                None
            }
        },
        SomeObject::Shm => {
            if header.opcode == 0 {
                match decoder.read_u32() {
                    Some(format) => Some(SomeEvent::Format { format }),
                    None => None,
                }
            } else {
                None
            }
        },
        SomeObject::XdgWmBase => {
            if header.opcode == 0 {
                match decoder.read_u32() {
                    Some(serial) => Some(SomeEvent::Ping { serial }),
                    None => None,
                }
            } else {
                None
            }
        },
        _ => None,
    }
}

/// The ids under which the client holds the globals of the compositor;
/// zero for one that it does not hold yet.
#[derive(Clone, Copy, Debug, PartialEq, Eq)]
pub struct WaylandGlobals {
    pub display: u32,
    pub registry: u32,
    pub compositor: u32,
    pub xdg_wm_base: u32,
    pub shm: u32,
}

impl WaylandGlobals {
    /// The globals with `id` for the global of the interface `object`;
    /// unchanged for an interface that has no global.
    pub open spec fn with(self, object: SomeObject, id: u32) -> WaylandGlobals {
        match object {
            SomeObject::Display => WaylandGlobals { display: id, ..self },
            SomeObject::Registry => WaylandGlobals { registry: id, ..self },
            SomeObject::Compositor => WaylandGlobals { compositor: id, ..self },
            SomeObject::XdgWmBase => WaylandGlobals { xdg_wm_base: id, ..self },
            SomeObject::Shm => WaylandGlobals { shm: id, ..self },
            _ => self,
        }
    }
}

/// What is left to do for the program that holds the socket, once the
/// client has taken a message in.
#[derive(Debug, PartialEq, Eq)]
pub enum Reaction {
    /// Nothing.
    Nothing,
    /// The message is shorter than a header.
    Malformed,
    /// The message speaks of an object that the client does not hold.
    InvalidObject { object: u32 },
    /// The object has no such event, or the message ends before the
    /// arguments of the event do.
    UnknownEvent { object: u32 },
    /// The client does nothing on this event.
    Unhandled { object: u32 },
    /// The callback `id` is done: what waited for it runs now.
    CallbackDone { id: u32, callback_data: u32 },
    /// A callback is done that nothing waited for.
    UnknownCallback { id: u32 },
    /// The compositor reports an error that ends the connection.
    Fatal { object_id: u32, code: u32, message: Vec<u8> },
    /// The compositor offers a global in a version that the client does
    /// not speak.
    VersionMismatch { interface: SomeObject, version: u32 },
    /// The client bound a global: the request in its write buffer is to
    /// be sent.
    Bound { interface: SomeObject, id: u32 },
}

/// A reaction as its plain values.
pub enum ReactionSpec {
    Nothing,
    Malformed,
    InvalidObject { object: u32 },
    UnknownEvent { object: u32 },
    Unhandled { object: u32 },
    CallbackDone { id: u32, callback_data: u32 },
    UnknownCallback { id: u32 },
    Fatal { object_id: u32, code: u32, message: Seq<u8> },
    VersionMismatch { interface: SomeObject, version: u32 },
    Bound { interface: SomeObject, id: u32 },
}

impl Reaction {
    /// The reaction as its plain values.
    pub open spec fn view(&self) -> ReactionSpec {
        match *self {
            Reaction::Nothing => ReactionSpec::Nothing,
            Reaction::Malformed => ReactionSpec::Malformed,
            Reaction::InvalidObject { object } => ReactionSpec::InvalidObject { object },
            Reaction::UnknownEvent { object } => ReactionSpec::UnknownEvent { object },
            Reaction::Unhandled { object } => ReactionSpec::Unhandled { object },
            Reaction::CallbackDone { id, callback_data } => ReactionSpec::CallbackDone {
                id,
                callback_data,
            },
            Reaction::UnknownCallback { id } => ReactionSpec::UnknownCallback { id },
            Reaction::Fatal { object_id, code, message } => ReactionSpec::Fatal {
                object_id,
                code,
                message: message@,
            },
            Reaction::VersionMismatch { interface, version } => ReactionSpec::VersionMismatch {
                interface,
                version,
            },
            Reaction::Bound { interface, id } => ReactionSpec::Bound { interface, id },
        }
    }
}

/// The first place from `from` on at which `objects` holds no object; the
/// length of `objects` where every place is taken.
pub open spec fn first_free(objects: Seq<Option<SomeObject>>, from: int) -> int
    decreases objects.len() - from,
{
    if from < 0 || from >= objects.len() {
        objects.len() as int
    } else if objects[from] is None {
        from
    } else {
        first_free(objects, from + 1)
    }
}

/// The first place from `from` on at which `ids` holds `id`; the length of
/// `ids` where it holds it nowhere.
pub open spec fn first_of(ids: Seq<u32>, id: u32, from: int) -> int
    decreases ids.len() - from,
{
    if from < 0 || from >= ids.len() {
        ids.len() as int
    } else if ids[from] == id {
        from
    } else {
        first_of(ids, id, from + 1)
    }
}

/// The bytes of a request: the header, with the object that is asked, the
/// opcode of the request and the size that the message counts for, and the
/// arguments behind it.
pub open spec fn request(object: u32, opcode: u16, size: int, args: Seq<u8>) -> Seq<u8> {
    (WireMsgHeader { object, opcode, len: size as u16 }).spec_encode() + args
}

/// The arguments by which the registry binds the global `name` as a new
/// object `id` of the interface `object`: the name of the global, then the
/// name of the interface, its version and the id.
pub open spec fn bind_args(name: u32, object: SomeObject, id: u32) -> Seq<u8> {
    spec_u32_to_le_bytes(name) + wire_string(object.name_bytes()) + spec_u32_to_le_bytes(
        object.spec_version(),
    ) + spec_u32_to_le_bytes(id)
}

/// The size that the request to bind a global of the interface `object`
/// counts for.
pub open spec fn bind_size(object: SomeObject) -> int {
    4 + string_size(object.name_bytes().len() as int) + 4 + 4 + 8
}

/// The interface of the global that the client binds when the compositor
/// offers one under the name `interface`; `None` for a global that the
/// client has no use for.
pub open spec fn wanted_global(interface: Seq<u8>) -> Option<SomeObject> {
    if interface == SomeObject::XdgWmBase.name_bytes() {
        Some(SomeObject::XdgWmBase)
    } else if interface == SomeObject::Shm.name_bytes() {
        Some(SomeObject::Shm)
    } else if interface == SomeObject::Compositor.name_bytes() {
        Some(SomeObject::Compositor)
    } else {
        None
    }
}

/// What a client holds, as plain values.
pub struct PlatformState {
    /// The object under each id. No object has the id zero.
    pub objects: Seq<Option<SomeObject>>,
    /// The ids of the globals.
    pub globals: WaylandGlobals,
    /// The ids of the callbacks that something waits for, oldest first.
    pub callbacks: Seq<u32>,
    /// The request that is to be sent next.
    pub outgoing: Seq<u8>,
}

impl PlatformState {
    /// The id that the next new object gets: the lowest one above zero
    /// that no object has.
    pub open spec fn free_id(self) -> int {
        first_free(self.objects, 1)
    }

    /// The state with a place for the id that the next new object gets.
    pub open spec fn with_id(self) -> PlatformState {
        if self.free_id() == self.objects.len() {
            PlatformState { objects: self.objects.push(None), ..self }
        } else {
            self
        }
    }

    /// The state with `request` as the request that is to be sent next.
    pub open spec fn asking(self, request: Seq<u8>) -> PlatformState {
        PlatformState { outgoing: request, ..self }
    }

    /// The state after a new object of the interface `object` took the
    /// next id.
    pub open spec fn holding(self, object: SomeObject) -> PlatformState {
        PlatformState {
            objects: self.with_id().objects.update(self.free_id(), Some(object)),
            ..self
        }
    }

    /// The state after the global `name` was bound as a new object of the
    /// interface `object`.
    pub open spec fn bound(self, object: SomeObject, name: u32) -> PlatformState {
        self.holding(object).asking(
            request(
                self.globals.registry,
                0,
                bind_size(object),
                bind_args(name, object, self.free_id() as u32),
            ),
        )
    }

    /// The state with a new callback that something waits for.
    pub open spec fn awaiting(self) -> PlatformState {
        PlatformState {
            callbacks: self.callbacks.push(self.free_id() as u32),
            ..self.holding(SomeObject::Callback)
        }
    }

    /// The state and the reaction after `event` came in for the object
    /// `object`.
    pub open spec fn after_event(self, object: u32, event: EventSpec) -> (
        PlatformState,
        ReactionSpec,
    ) {
        match event {
            EventSpec::Done { callback_data } => {
                let at = first_of(self.callbacks, object, 0);
                if at < self.callbacks.len() {
                    (
                        PlatformState { callbacks: self.callbacks.remove(at), ..self },
                        ReactionSpec::CallbackDone { id: object, callback_data },
                    )
                } else {
                    (self, ReactionSpec::UnknownCallback { id: object })
                }
            },
            EventSpec::Error { object_id, code, message } => (
                self,
                ReactionSpec::Fatal { object_id, code, message },
            ),
            EventSpec::DeleteId { id } => if id < self.objects.len() {
                (
                    PlatformState { objects: self.objects.update(id as int, None), ..self },
                    ReactionSpec::Nothing,
                )
            } else {
                (self, ReactionSpec::InvalidObject { object: id })
            },
            EventSpec::Global { name, interface, version } => match wanted_global(interface) {
                Some(wanted) => if version == wanted.spec_version() {
                    let id = self.free_id() as u32;
                    let bound = self.bound(wanted, name);
                    (
                        PlatformState { globals: self.globals.with(wanted, id), ..bound },
                        ReactionSpec::Bound { interface: wanted, id },
                    )
                } else {
                    (self, ReactionSpec::VersionMismatch { interface: wanted, version })
                },
                None => (self, ReactionSpec::Nothing),
            },
            EventSpec::GlobalRemove { name } => (self, ReactionSpec::Nothing),
            EventSpec::Format { format } => (self, ReactionSpec::Nothing),
            EventSpec::Ping { serial } => (self, ReactionSpec::Unhandled { object }),
        }
    }

    /// The state and the reaction after `message` came in.
    pub open spec fn after_message(self, message: Seq<u8>) -> (PlatformState, ReactionSpec) {
        if message.len() < WIRE_HEADER_SIZE {
            (self, ReactionSpec::Malformed)
        } else {
            let object = WireMsgHeader::spec_decode(message).object;
            if object >= self.objects.len() {
                (self, ReactionSpec::InvalidObject { object })
            } else {
                match self.objects[object as int] {
                    None => (self, ReactionSpec::InvalidObject { object }),
                    Some(interface) => match event_of(interface, message) {
                        None => (self, ReactionSpec::UnknownEvent { object }),
                        Some(event) => self.after_event(object, event),
                    },
                }
            }
        }
    }
}

/// What the write buffer commits at once: whole pages that hold a message
/// of any size, since a header counts the size of its message in sixteen
/// bits.
pub const MAX_MESSAGE_SIZE: usize = 65536;

/// A client of a Wayland compositor, without the socket: the objects that
/// it holds, the callbacks that it waits for, and the request that is to
/// be sent next.
pub struct WaylandPlatform {
    /// The object under each id. No object has the id zero.
    pub objects: Vec<Option<SomeObject>>,
    /// The ids of the globals.
    pub globals: WaylandGlobals,
    /// The ids of the callbacks that something waits for, oldest first.
    pub callbacks: Vec<u32>,
    /// The request that is to be sent next.
    pub write_buffer: ArenaVec<u8>,
}

/// Whether `left` and `right` hold the same bytes.
fn same_bytes(left: &[u8], right: &[u8]) -> (same: bool)
    ensures
        same == (left@ == right@),
{
    if left.len() != right.len() {
        return false;
    }
    let mut idx: usize = 0;
    while idx < left.len()
        invariant
            idx <= left@.len(),
            left@.len() == right@.len(),
            left@.take(idx as int) == right@.take(idx as int),
        decreases left@.len() - idx,
    {
        if left[idx] != right[idx] {
            return false;
        }
        idx = idx + 1;
        proof {
            assert(left@.take(idx as int) =~= left@.take(idx - 1).push(left@[idx - 1]));
            assert(right@.take(idx as int) =~= right@.take(idx - 1).push(right@[idx - 1]));
        }
    }
    proof {
        assert(left@.take(idx as int) =~= left@);
        assert(right@.take(idx as int) =~= right@);
    }
    true
}

/// The interface of the global that the client binds when the compositor
/// offers one under the name `interface`.
pub fn wanted(interface: &[u8]) -> (object: Option<SomeObject>)
    ensures
        object == wanted_global(interface@),
{
    if same_bytes(interface, SomeObject::XdgWmBase.ffi_name().as_bytes()) {
        Some(SomeObject::XdgWmBase)
    } else if same_bytes(interface, SomeObject::Shm.ffi_name().as_bytes()) {
        Some(SomeObject::Shm)
    } else if same_bytes(interface, SomeObject::Compositor.ffi_name().as_bytes()) {
        Some(SomeObject::Compositor)
    } else {
        None
    }
}

impl WaylandPlatform {
    /// The client as plain values.
    pub open spec fn view(&self) -> PlatformState {
        PlatformState {
            objects: self.objects@,
            globals: self.globals,
            callbacks: self.callbacks@,
            outgoing: self.write_buffer@,
        }
    }

    /// The invariant of the client: no object has the id zero, every id is
    /// a `u32`, and the write buffer takes a message of any size.
    pub open spec fn wf(&self) -> bool {
        &&& 1 <= self.objects@.len() <= u32::MAX
        &&& self.write_buffer.wf()
        &&& self.write_buffer.spec_reserved_memory() >= MAX_MESSAGE_SIZE
    }

    /// Whether the next new object can get an id: the client holds less
    /// places for objects than a `u32` counts.
    pub open spec fn has_spare_id(&self) -> bool {
        self.objects@.len() < u32::MAX
    }

    /// A client that is about to ask the display for the registry: it
    /// holds the display under the id 1 and the registry under the id 2.
    pub fn new() -> (platform: Self)
        ensures
            platform.wf(),
            platform.has_spare_id(),
            platform@ == (PlatformState {
                objects: seq![None, Some(SomeObject::Display), Some(SomeObject::Registry)],
                globals: WaylandGlobals {
                    display: 1,
                    registry: 2,
                    compositor: 0,
                    xdg_wm_base: 0,
                    shm: 0,
                },
                callbacks: Seq::empty(),
                outgoing: request(1, 1, 12, spec_u32_to_le_bytes(2)),
            }),
    {
        broadcast use vstd::layout::layout_of_primitives;

        proof {
            crate::utils::lemma_align_up(MAX_MESSAGE_SIZE as int, 4096);
        }
        let mut objects: Vec<Option<SomeObject>> = Vec::new();
        objects.push(None);
        objects.push(Some(SomeObject::Display));
        objects.push(Some(SomeObject::Registry));
        let mut platform = Self {
            objects,
            globals: WaylandGlobals { display: 1, registry: 2, compositor: 0, xdg_wm_base: 0, shm: 0 },
            callbacks: Vec::new(),
            write_buffer: ArenaVec::with_capacity(MAX_MESSAGE_SIZE),
        };
        proof {
            assert(platform.objects@ =~= seq![
                None,
                Some(SomeObject::Display),
                Some(SomeObject::Registry),
            ]);
            reveal_with_fuel(first_free, 4);
        }
        platform.get_registry(2);
        platform
    }

    /// Whether the client holds the globals that it cannot work without.
    pub fn has_globals(&self) -> (has: bool)
        ensures
            has == (self.globals.xdg_wm_base != 0 && self.globals.shm != 0),
    {
        self.globals.xdg_wm_base != 0 && self.globals.shm != 0
    }

    /// Starts a request in the write buffer: what it held goes, and the
    /// header stands in it.
    fn start_request(&mut self, object: u32, opcode: u16, size: u16)
        requires
            old(self).wf(),
        ensures
            final(self).wf(),
            final(self)@ == old(self)@.asking(
                (WireMsgHeader { object, opcode, len: size }).spec_encode(),
            ),
            final(self)@.outgoing.len() == WIRE_HEADER_SIZE,
    {
        broadcast use vstd::layout::layout_of_primitives;

        let header = WireMsgHeader { object, opcode, len: size };
        proof {
            header.lemma_round_trip(Seq::empty());
        }
        self.write_buffer.clear();
        proof {
            self.write_buffer.lemma_room(WIRE_HEADER_SIZE as nat);
            assert(WIRE_HEADER_SIZE as nat * ArenaVec::<u8>::elem_size() == 8) by (nonlinear_arith)
                requires
                    ArenaVec::<u8>::elem_size() == 1,
            ;
            assert(self.write_buffer@.len() * ArenaVec::<u8>::elem_size() == 0) by (nonlinear_arith)
                requires
                    self.write_buffer@.len() == 0,
            ;
        }
        let bytes = header.encode();
        let written = self.write_buffer.try_write_all(bytes.as_slice());
        proof {
            assert(written is Ok);
            assert(self.write_buffer@ =~= header.spec_encode());
        }
    }

    /// Puts a number behind what the write buffer holds.
    fn put_u32(&mut self, value: u32)
        requires
            old(self).wf(),
            old(self)@.outgoing.len() + 4 <= MAX_MESSAGE_SIZE,
        ensures
            final(self).wf(),
            final(self)@ == old(self)@.asking(old(self)@.outgoing + spec_u32_to_le_bytes(value)),
            final(self)@.outgoing.len() == old(self)@.outgoing.len() + 4,
    {
        broadcast use vstd::layout::layout_of_primitives;

        proof {
            vstd::bytes::lemma_auto_spec_u32_to_from_le_bytes();
            self.write_buffer.lemma_room(4);
            assert(4 * ArenaVec::<u8>::elem_size() == 4) by (nonlinear_arith)
                requires
                    ArenaVec::<u8>::elem_size() == 1,
            ;
            assert(self.write_buffer@.len() * ArenaVec::<u8>::elem_size()
                == self.write_buffer@.len()) by (nonlinear_arith)
                requires
                    ArenaVec::<u8>::elem_size() == 1,
            ;
        }
        let written = value.write_wire(&mut self.write_buffer);
        proof {
            assert(written is Ok);
        }
    }

    /// Puts the name of an interface behind what the write buffer holds.
    fn put_name(&mut self, object: SomeObject)
        requires
            old(self).wf(),
            old(self)@.outgoing.len() + 20 <= MAX_MESSAGE_SIZE,
        ensures
            final(self).wf(),
            final(self)@ == old(self)@.asking(
                old(self)@.outgoing + wire_string(object.name_bytes()),
            ),
            final(self)@.outgoing.len() <= old(self)@.outgoing.len() + 20,
    {
        broadcast use vstd::layout::layout_of_primitives;

        let name = object.ffi_name();
        proof {
            crate::ui::wire::lemma_string_round_trip(
                Seq::empty(),
                object.name_bytes(),
                Seq::empty(),
            );
            crate::utils::lemma_align_up(object.name_bytes().len() as int + 1, 4);
            let size = wire_string(object.name_bytes()).len();
            self.write_buffer.lemma_room(size);
            assert(size * ArenaVec::<u8>::elem_size() == size) by (nonlinear_arith)
                requires
                    ArenaVec::<u8>::elem_size() == 1,
            ;
            assert(self.write_buffer@.len() * ArenaVec::<u8>::elem_size()
                == self.write_buffer@.len()) by (nonlinear_arith)
                requires
                    ArenaVec::<u8>::elem_size() == 1,
            ;
        }
        let written = name.write_wire(&mut self.write_buffer);
        proof {
            assert(written is Ok);
        }
    }

    /// Asks the display to tell when it has handled every request up to
    /// this one: the callback `callback` is done then.
    pub fn sync_display(&mut self, callback: u32)
        requires
            old(self).wf(),
        ensures
            final(self).wf(),
            final(self)@ == old(self)@.asking(
                request(old(self).globals.display, 0, 12, spec_u32_to_le_bytes(callback)),
            ),
    {
        self.start_request(self.globals.display, 0, 12);
        self.put_u32(callback);
    }

    /// Asks the display for the registry, as the new object `registry`.
    pub fn get_registry(&mut self, registry: u32)
        requires
            old(self).wf(),
        ensures
            final(self).wf(),
            final(self)@ == old(self)@.asking(
                request(old(self).globals.display, 1, 12, spec_u32_to_le_bytes(registry)),
            ),
    {
        self.start_request(self.globals.display, 1, 12);
        self.put_u32(registry);
    }

    /// Asks the registry to bind the global `name` as the new object `id`
    /// of the interface `object`.
    pub fn bind(&mut self, name: u32, object: SomeObject, id: u32)
        requires
            old(self).wf(),
        ensures
            final(self).wf(),
            final(self)@ == old(self)@.asking(
                request(
                    old(self).globals.registry,
                    0,
                    bind_size(object),
                    bind_args(name, object, id),
                ),
            ),
    {
        let text = object.ffi_name();
        let size = text.size() + 20;
        self.start_request(self.globals.registry, 0, size);
        self.put_u32(name);
        self.put_name(object);
        self.put_u32(object.version());
        self.put_u32(id);
        proof {
            assert(self@.outgoing =~= request(
                old(self).globals.registry,
                0,
                bind_size(object),
                bind_args(name, object, id),
            ));
        }
    }

    /// Asks the compositor for a surface, as the new object `id`.
    pub fn create_surface(&mut self, id: u32)
        requires
            old(self).wf(),
        ensures
            final(self).wf(),
            final(self)@ == old(self)@.asking(
                request(old(self).globals.compositor, 0, 12, spec_u32_to_le_bytes(id)),
            ),
    {
        self.start_request(self.globals.compositor, 0, 12);
        self.put_u32(id);
    }

    /// Asks the window manager to make the surface `surface` a window
    /// surface, as the new object `id`.
    pub fn get_xdg_surface(&mut self, id: u32, surface: u32)
        requires
            old(self).wf(),
        ensures
            final(self).wf(),
            final(self)@ == old(self)@.asking(
                request(
                    old(self).globals.xdg_wm_base,
                    2,
                    16,
                    spec_u32_to_le_bytes(id) + spec_u32_to_le_bytes(surface),
                ),
            ),
    {
        self.start_request(self.globals.xdg_wm_base, 2, 16);
        self.put_u32(id);
        self.put_u32(surface);
        proof {
            assert(self@.outgoing =~= request(
                old(self).globals.xdg_wm_base,
                2,
                16,
                spec_u32_to_le_bytes(id) + spec_u32_to_le_bytes(surface),
            ));
        }
    }

    /// Answers a ping of the window manager.
    pub fn pong(&mut self, serial: u32)
        requires
            old(self).wf(),
        ensures
            final(self).wf(),
            final(self)@ == old(self)@.asking(
                request(old(self).globals.xdg_wm_base, 3, 12, spec_u32_to_le_bytes(serial)),
            ),
    {
        self.start_request(self.globals.xdg_wm_base, 3, 12);
        self.put_u32(serial);
    }

    /// Gives the id that the next new object gets: one that no object
    /// has, the lowest above zero, for which the client makes a place
    /// where it has none.
    pub fn new_id(&mut self) -> (id: u32)
        requires
            old(self).wf(),
            old(self).has_spare_id(),
        ensures
            final(self).wf(),
            id == old(self)@.free_id(),
            final(self)@ == old(self)@.with_id(),
            1 <= id < final(self).objects@.len(),
            final(self).objects@[id as int] is None,
            final(self)@.free_id() == id,
    {
        let mut idx: usize = 1;
        while idx < self.objects.len()
            invariant
                1 <= idx <= self.objects@.len(),
                *self == *old(self),
                old(self).wf(),
                old(self).has_spare_id(),
                forall|i: int| 1 <= i < idx ==> self.objects@[i] is Some,
            decreases self.objects@.len() - idx,
        {
            if self.objects[idx].is_none() {
                proof {
                    Self::lemma_first_free(self.objects@, 1, idx as int);
                }
                return idx as u32;
            }
            idx = idx + 1;
        }
        proof {
            Self::lemma_all_taken(self.objects@, 1);
        }
        let id = self.objects.len() as u32;
        self.objects.push(None);
        proof {
            Self::lemma_first_free(self.objects@, 1, id as int);
        }
        id
    }

    /// Takes the next id for a new object of the interface `object`.
    fn take_id(&mut self, object: SomeObject) -> (id: u32)
        requires
            old(self).wf(),
            old(self).has_spare_id(),
        ensures
            final(self).wf(),
            id == old(self)@.free_id(),
            final(self)@ == old(self)@.holding(object),
    {
        let id = self.new_id();
        self.objects.set(id as usize, Some(object));
        id
    }

    /// Binds the global that the compositor offers under `name`, in the
    /// version `version`, as a new object of the interface `object`, and
    /// gives the id of that object. The request to the registry stands in
    /// the write buffer. Where the client speaks another version of the
    /// interface, nothing is bound and nothing changes.
    pub fn bind_global(&mut self, object: SomeObject, name: u32, version: u32) -> (id: Option<u32>)
        requires
            old(self).wf(),
            old(self).has_spare_id(),
        ensures
            final(self).wf(),
            version != object.spec_version() ==> id is None && final(self)@ == old(self)@,
            version == object.spec_version() ==> id == Some(old(self)@.free_id() as u32)
                && final(self)@ == old(self)@.bound(object, name),
    {
        if version != object.version() {
            return None;
        }
        let id = self.take_id(object);
        self.bind(name, object, id);
        Some(id)
    }

    /// Makes a callback that something waits for, and gives its id.
    pub fn create_callback(&mut self) -> (id: u32)
        requires
            old(self).wf(),
            old(self).has_spare_id(),
        ensures
            final(self).wf(),
            id == old(self)@.free_id(),
            final(self)@ == old(self)@.awaiting(),
    {
        let id = self.take_id(SomeObject::Callback);
        self.callbacks.push(id);
        id
    }

    /// Asks the compositor to tell when it has handled every request up
    /// to now, and gives the id of the callback that is done then. The
    /// request stands in the write buffer.
    pub fn sync(&mut self) -> (id: u32)
        requires
            old(self).wf(),
            old(self).has_spare_id(),
        ensures
            final(self).wf(),
            id == old(self)@.free_id(),
            final(self)@ == old(self)@.awaiting().asking(
                request(old(self).globals.display, 0, 12, spec_u32_to_le_bytes(id)),
            ),
    {
        let id = self.create_callback();
        self.sync_display(id);
        id
    }

    /// Sets the id of the global of the interface `object`.
    fn set_global(&mut self, object: SomeObject, id: u32)
        ensures
            final(self).objects == old(self).objects,
            final(self).callbacks == old(self).callbacks,
            final(self).write_buffer == old(self).write_buffer,
            final(self).globals == old(self).globals.with(object, id),
    {
        match object {
            SomeObject::Display => {
                self.globals.display = id;
            },
            SomeObject::Registry => {
                self.globals.registry = id;
            },
            SomeObject::Compositor => {
                self.globals.compositor = id;
            },
            SomeObject::XdgWmBase => {
                self.globals.xdg_wm_base = id;
            },
            SomeObject::Shm => {
                self.globals.shm = id;
            },
            _ => {},
        }
    }

    /// Takes in an event that came for the object `object`: changes what
    /// the client holds, and says what is left to do.
    pub fn process_event(&mut self, object: u32, event: SomeEvent) -> (reaction: Reaction)
        requires
            old(self).wf(),
            old(self).has_spare_id(),
        ensures
            final(self).wf(),
            (final(self)@, reaction@) == old(self)@.after_event(object, event@),
    {
        match event {
            SomeEvent::Done { callback_data } => {
                let mut idx: usize = 0;
                while idx < self.callbacks.len()
                    invariant
                        idx <= self.callbacks@.len(),
                        *self == *old(self),
                        old(self).wf(),
                        event@ == (EventSpec::Done { callback_data }),
                        forall|i: int| 0 <= i < idx ==> self.callbacks@[i] != object,
                    decreases self.callbacks@.len() - idx,
                {
                    if self.callbacks[idx] == object {
                        proof {
                            Self::lemma_first_of(self.callbacks@, object, 0, idx as int);
                        }
                        self.callbacks.remove(idx);
                        return Reaction::CallbackDone { id: object, callback_data };
                    }
                    idx = idx + 1;
                }
                proof {
                    Self::lemma_none_of(self.callbacks@, object, 0);
                }
                Reaction::UnknownCallback { id: object }
            },
            SomeEvent::Error { object_id, code, message } => Reaction::Fatal {
                object_id,
                code,
                message,
            },
            SomeEvent::DeleteId { id } => {
                if (id as usize) < self.objects.len() {
                    self.objects.set(id as usize, None);
                    Reaction::Nothing
                } else {
                    Reaction::InvalidObject { object: id }
                }
            },
            SomeEvent::Global { name, interface, version } => {
                match wanted(interface.as_slice()) {
                    Some(found) => match self.bind_global(found, name, version) {
                        Some(id) => {
                            self.set_global(found, id);
                            Reaction::Bound { interface: found, id }
                        },
                        None => Reaction::VersionMismatch { interface: found, version },
                    },
                    None => Reaction::Nothing,
                }
            },
            SomeEvent::GlobalRemove { name } => Reaction::Nothing,
            SomeEvent::Format { format } => Reaction::Nothing,
            SomeEvent::Ping { serial } => Reaction::Unhandled { object },
        }
    }

    /// Takes in the next message of the compositor: reads the event in it,
    /// changes what the client holds, and says what is left to do.
    pub fn process_next_event(&mut self, message: &[u8]) -> (reaction: Reaction)
        requires
            old(self).wf(),
            old(self).has_spare_id(),
        ensures
            final(self).wf(),
            (final(self)@, reaction@) == old(self)@.after_message(message@),
    {
        let header = match WireMsgHeader::decode(message) {
            Some(header) => header,
            None => {
                return Reaction::Malformed;
            },
        };
        let object = header.object;
        if object as usize >= self.objects.len() {
            return Reaction::InvalidObject { object };
        }
        let interface = match self.objects[object as usize] {
            Some(interface) => interface,
            None => {
                return Reaction::InvalidObject { object };
            },
        };
        match decode_event(interface, message) {
            Some(event) => self.process_event(object, event),
            None => Reaction::UnknownEvent { object },
        }
    }

    /// The first place of an id is the one that holds it with none
    /// before it.
    pub proof fn lemma_first_of(ids: Seq<u32>, id: u32, from: int, at: int)
        requires
            0 <= from <= at < ids.len(),
            ids[at] == id,
            forall|i: int| from <= i < at ==> ids[i] != id,
        ensures
            first_of(ids, id, from) == at,
        decreases at - from,
    {
        if from < at {
            Self::lemma_first_of(ids, id, from + 1, at);
        }
    }

    /// Where no place holds an id, its first place is behind the last.
    pub proof fn lemma_none_of(ids: Seq<u32>, id: u32, from: int)
        requires
            0 <= from <= ids.len(),
            forall|i: int| from <= i < ids.len() ==> ids[i] != id,
        ensures
            first_of(ids, id, from) == ids.len(),
        decreases ids.len() - from,
    {
        if from < ids.len() {
            Self::lemma_none_of(ids, id, from + 1);
        }
    }

    /// Where every place is taken, the first free one is behind the last.
    pub proof fn lemma_all_taken(objects: Seq<Option<SomeObject>>, from: int)
        requires
            0 <= from <= objects.len(),
            forall|i: int| from <= i < objects.len() ==> objects[i] is Some,
        ensures
            first_free(objects, from) == objects.len(),
        decreases objects.len() - from,
    {
        if from < objects.len() {
            Self::lemma_all_taken(objects, from + 1);
        }
    }

    /// The first free place is free, and none before it is.
    pub proof fn lemma_first_free(objects: Seq<Option<SomeObject>>, from: int, at: int)
        requires
            0 <= from <= at < objects.len(),
            objects[at] is None,
            forall|i: int| from <= i < at ==> objects[i] is Some,
        ensures
            first_free(objects, from) == at,
        decreases at - from,
    {
        if from < at {
            Self::lemma_first_free(objects, from + 1, at);
        }
    }
}

} // verus!
