//! Messages between a client and a Wayland compositor, as bytes.
//!
//! A message is a header of eight bytes — the object that the message is
//! for, the opcode of the request or event, and the size of the whole
//! message — and the arguments behind it. Numbers are written with their
//! lowest byte first. A string is written as its length, counting a zero
//! byte that ends it, its bytes, the zero byte, and as many zero bytes more
//! as it takes to end at a multiple of four.

use crate::datatypes::arenavec::{lemma_fit_concat, ArenaVec, Error};
use crate::utils::{align, align_up};
use core::marker::PhantomData;
use vstd::bytes::{
    lemma_auto_spec_u16_to_from_le_bytes, lemma_auto_spec_u32_to_from_le_bytes,
    spec_u16_from_le_bytes, spec_u16_to_le_bytes, spec_u32_from_le_bytes, spec_u32_to_le_bytes,
    u16_from_le_bytes, u16_to_le_bytes, u32_from_le_bytes, u32_to_le_bytes,
};
use vstd::prelude::*;
use vstd::string::StringSliceAdditionalSpecFns;

verus! {

/// What a compositor knows an object by: the name of its interface and the
/// version of it that the client speaks.
pub trait Interface {
    /// The version of the interface.
    fn version() -> u32;

    /// The name of the interface on the wire.
    fn ffi_name() -> &'static str;
}

/// An object of the interface `I` that the compositor knows under `id`.
pub struct Object<I: Interface> {
    pub id: u32,
    pub _ph: PhantomData<I>,
}

impl<I: Interface> Object<I> {
    pub fn with_id(id: u32) -> (object: Self)
        ensures
            object.id == id,
    {
        Self { id, _ph: PhantomData }
    }

    /// The object that was made under `new_id`.
    pub fn from_new_id(new_id: NewId<I>) -> (object: Self)
        ensures
            object.id == new_id.id,
    {
        Self { id: new_id.id, _ph: PhantomData }
    }
}

/// The id under which the client makes a new object of the interface `I`.
pub struct NewId<I: Interface> {
    pub id: u32,
    pub _ph: PhantomData<I>,
}

impl<I: Interface> NewId<I> {
    pub fn with_id(id: u32) -> (new_id: Self)
        ensures
            new_id.id == id,
    {
        Self { id, _ph: PhantomData }
    }

    /// The same id for a compositor that does not know the interface.
    pub fn untyped(self) -> (new_id: UntypedNewId<I>)
        ensures
            new_id.id == self.id,
    {
        UntypedNewId { id: self.id, _ph: PhantomData }
    }
}

/// A [`NewId`] whose type is unknown by the compositor. When encoded to
/// wire, this type will encode its interface in addition to its object ID,
/// unlike [`NewId`] (which just encodes its object ID).
pub struct UntypedNewId<I: Interface> {
    pub id: u32,
    pub _ph: PhantomData<I>,
}

impl<I: Interface> UntypedNewId<I> {
    pub fn with_id(id: u32) -> (new_id: Self)
        ensures
            new_id.id == id,
    {
        Self { id, _ph: PhantomData }
    }

    /// The same id for a compositor that knows the interface.
    pub fn typed(self) -> (new_id: NewId<I>)
        ensures
            new_id.id == self.id,
    {
        NewId { id: self.id, _ph: PhantomData }
    }
}

/// The size of a message header in bytes.
pub const WIRE_HEADER_SIZE: usize = 8;

#[derive(Debug, Clone, Copy, PartialEq, Eq)]
pub struct WireMsgHeader {
    /// The ID of an object. This message is either us calling a method of
    /// that object or the compositor sending an event of that object.
    pub object: u32,
    /// The ID of the method or event this message is calling.
    pub opcode: u16,
    /// The total size of this message, in bytes.
    pub len: u16,
}

impl WireMsgHeader {
    /// The eight bytes of the header.
    pub open spec fn spec_encode(self) -> Seq<u8> {
        spec_u32_to_le_bytes(self.object) + spec_u16_to_le_bytes(self.opcode)
            + spec_u16_to_le_bytes(self.len)
    }

    /// The header that eight bytes stand for.
    pub open spec fn spec_decode(bytes: Seq<u8>) -> WireMsgHeader {
        WireMsgHeader {
            object: spec_u32_from_le_bytes(bytes.subrange(0, 4)),
            opcode: spec_u16_from_le_bytes(bytes.subrange(4, 6)),
            len: spec_u16_from_le_bytes(bytes.subrange(6, 8)),
        }
    }

    /// A header is read back as it was written.
    pub proof fn lemma_round_trip(self, rest: Seq<u8>)
        ensures
            self.spec_encode().len() == WIRE_HEADER_SIZE,
            Self::spec_decode(self.spec_encode() + rest) == self,
    {
        lemma_auto_spec_u32_to_from_le_bytes();
        lemma_auto_spec_u16_to_from_le_bytes();
        let all = self.spec_encode() + rest;
        assert(all.subrange(0, 4) =~= spec_u32_to_le_bytes(self.object));
        assert(all.subrange(4, 6) =~= spec_u16_to_le_bytes(self.opcode));
        assert(all.subrange(6, 8) =~= spec_u16_to_le_bytes(self.len));
    }

    /// The eight bytes of the header.
    pub fn encode(&self) -> (bytes: Vec<u8>)
        ensures
            bytes@ == self.spec_encode(),
    {
        let mut bytes = u32_to_le_bytes(self.object);
        let mut opcode = u16_to_le_bytes(self.opcode);
        let mut len = u16_to_le_bytes(self.len);
        bytes.append(&mut opcode);
        bytes.append(&mut len);
        bytes
    }

    /// The header at the start of `bytes`, or `None` where there are less
    /// than eight of them.
    pub fn decode(bytes: &[u8]) -> (header: Option<Self>)
        ensures
            header == (if bytes@.len() >= WIRE_HEADER_SIZE {
                Some(Self::spec_decode(bytes@))
            } else {
                None
            }),
    {
        if bytes.len() < WIRE_HEADER_SIZE {
            return None;
        }
        Some(
            Self {
                object: u32_from_le_bytes(vstd::slice::slice_subrange(bytes, 0, 4)),
                opcode: u16_from_le_bytes(vstd::slice::slice_subrange(bytes, 4, 6)),
                len: u16_from_le_bytes(vstd::slice::slice_subrange(bytes, 6, 8)),
            },
        )
    }
}

/// Reads the arguments of one message, from the first to the last.
pub struct WireDecoder<'a> {
    pub bytes: &'a [u8],
    /// How many bytes were read.
    pub progress: usize,
}

impl<'a> WireDecoder<'a> {
    /// A decoder for the message in `bytes` that has read its header.
    pub fn new(bytes: &'a [u8]) -> (decoder: Self)
        ensures
            decoder.bytes == bytes,
            decoder.progress == WIRE_HEADER_SIZE,
    {
        Self { bytes, progress: 8 }
    }

    /// The header of the message, or `None` where the message is shorter
    /// than a header.
    pub fn header(&self) -> (header: Option<WireMsgHeader>)
        ensures
            header == (if self.bytes@.len() >= WIRE_HEADER_SIZE {
                Some(WireMsgHeader::spec_decode(self.bytes@))
            } else {
                None
            }),
    {
        WireMsgHeader::decode(self.bytes)
    }

    /// The next `bytes` bytes of the message, or `None` where the message
    /// ends before them; the decoder moves on only where it gives them out.
    pub fn read_next(&mut self, bytes: usize) -> (read: Option<&'a [u8]>)
        ensures
            final(self).bytes == old(self).bytes,
            old(self).progress + bytes <= old(self).bytes@.len() ==> read is Some
                && read.unwrap()@ == old(self).bytes@.subrange(
                old(self).progress as int,
                old(self).progress + bytes,
            ) && final(self).progress == old(self).progress + bytes,
            old(self).progress + bytes > old(self).bytes@.len() ==> read is None && final(self).progress == old(self).progress,
    {
        let total = self.bytes.len();
        if self.progress > total || bytes > total - self.progress {
            return None;
        }
        let start = self.progress;
        self.progress = start + bytes;
        Some(vstd::slice::slice_subrange(self.bytes, start, start + bytes))
    }

    /// The next argument of the message as a number, or `None` where the
    /// message ends before it.
    pub fn read_u32(&mut self) -> (read: Option<u32>)
        ensures
            final(self).bytes == old(self).bytes,
            old(self).progress + 4 <= old(self).bytes@.len() ==> read == Some(
                spec_u32_from_le_bytes(
                    old(self).bytes@.subrange(old(self).progress as int, old(self).progress + 4),
                ),
            ) && final(self).progress == old(self).progress + 4,
            old(self).progress + 4 > old(self).bytes@.len() ==> read is None && final(self).progress == old(self).progress,
    {
        match self.read_next(4) {
            Some(bytes) => Some(u32_from_le_bytes(bytes)),
            None => None,
        }
    }

    /// The next argument of the message as the bytes of a string, without
    /// the zero bytes that end it, or `None` where the message ends before
    /// the string does or the string has no length at all. The decoder
    /// moves on only where it gives the string out.
    pub fn read_string_bytes(&mut self) -> (read: Option<&'a [u8]>)
        ensures
            final(self).bytes == old(self).bytes,
            match string_at(old(self).bytes@, old(self).progress as int) {
                Some(found) => read is Some && read.unwrap()@ == found.0 && final(self).progress
                    == found.1,
                None => read is None && final(self).progress == old(self).progress,
            },
    {
        let start = self.progress;
        let len = match self.read_u32() {
            Some(len) => len as usize,
            None => {
                return None;
            },
        };
        let rem = len % 4;
        let pad: usize = if rem == 0 {
            0
        } else {
            4 - rem
        };
        if len == 0 || pad > usize::MAX - len {
            self.progress = start;
            return None;
        }
        match self.read_next(len + pad) {
            Some(bytes) => Some(vstd::slice::slice_subrange(bytes, 0, len - 1)),
            None => {
                self.progress = start;
                None
            },
        }
    }
}

/// The string that starts at `at` in `bytes`: its bytes without the zero
/// bytes that end it, and where the argument behind it starts.
pub open spec fn string_at(bytes: Seq<u8>, at: int) -> Option<(Seq<u8>, int)> {
    if at < 0 || at + 4 > bytes.len() {
        None
    } else {
        let len = spec_u32_from_le_bytes(bytes.subrange(at, at + 4)) as int;
        let padded = align_up(len, 4);
        if len == 0 || padded > usize::MAX || at + 4 + padded > bytes.len() {
            None
        } else {
            Some((bytes.subrange(at + 4, at + 4 + len - 1), at + 4 + padded))
        }
    }
}

/// As many zero bytes as `count` says.
pub open spec fn zeros(count: nat) -> Seq<u8> {
    Seq::new(count, |i: int| 0u8)
}

/// A string on the wire: its length, counting the zero byte that ends it,
/// its bytes, the zero byte, and zero bytes up to a multiple of four.
pub open spec fn wire_string(text: Seq<u8>) -> Seq<u8> {
    spec_u32_to_le_bytes((text.len() + 1) as u32) + text + zeros(
        (align_up(text.len() as int + 1, 4) - text.len()) as nat,
    )
}

/// A string is read back as it was written, whatever stands around it.
pub proof fn lemma_string_round_trip(before: Seq<u8>, text: Seq<u8>, after: Seq<u8>)
    requires
        text.len() + 4 < u32::MAX,
    ensures
        wire_string(text).len() == 4 + align_up(text.len() as int + 1, 4),
        string_at(before + wire_string(text) + after, before.len() as int) == Some(
            (text, (before.len() + wire_string(text).len()) as int),
        ),
{
    lemma_auto_spec_u32_to_from_le_bytes();
    crate::utils::lemma_align_up(text.len() as int + 1, 4);
    let all = before + wire_string(text) + after;
    let at = before.len() as int;
    assert(all.subrange(at, at + 4) =~= spec_u32_to_le_bytes((text.len() + 1) as u32));
    assert(all.subrange(at + 4, at + 4 + text.len()) =~= text);
}

/// What can be written to the wire as an argument of a message.
pub trait WriteWire {
    /// The size that the argument counts for in the header of its message.
    fn size(&self) -> u16;

    /// Writes the argument behind what `msg_buffer` holds, or reports that
    /// the buffer cannot take it and leaves it as it was.
    fn write_wire(self, msg_buffer: &mut ArenaVec<u8>) -> (r: Result<(), Error>)
        requires
            old(msg_buffer).wf(),
        ensures
            final(msg_buffer).wf(),
            r is Err ==> final(msg_buffer)@ == old(msg_buffer)@,
    ;
}

impl WriteWire for u32 {
    fn size(&self) -> (size: u16)
        ensures
            size == 4,
    {
        4
    }

    fn write_wire(self, msg_buffer: &mut ArenaVec<u8>) -> (r: Result<(), Error>)
        ensures
            r is Ok <==> old(msg_buffer).fitting_pushes(4) == 4,
            r is Ok ==> final(msg_buffer)@ == old(msg_buffer)@ + spec_u32_to_le_bytes(self),
            final(msg_buffer).spec_reserved_memory() == old(msg_buffer).spec_reserved_memory(),
            final(msg_buffer).spec_page_size() == old(msg_buffer).spec_page_size(),
            final(msg_buffer).spec_capacity() == old(msg_buffer).capacity_after(4),
    {
        proof {
            lemma_auto_spec_u32_to_from_le_bytes();
        }
        let bytes = u32_to_le_bytes(self);
        msg_buffer.try_write_all(bytes.as_slice())
    }
}

impl WriteWire for i32 {
    fn size(&self) -> (size: u16)
        ensures
            size == 4,
    {
        4
    }

    fn write_wire(self, msg_buffer: &mut ArenaVec<u8>) -> (r: Result<(), Error>)
        ensures
            r is Ok <==> old(msg_buffer).fitting_pushes(4) == 4,
            r is Ok ==> final(msg_buffer)@ == old(msg_buffer)@ + spec_u32_to_le_bytes(self as u32),
    {
        proof {
            lemma_auto_spec_u32_to_from_le_bytes();
        }
        let bytes = u32_to_le_bytes(self as u32);
        msg_buffer.try_write_all(bytes.as_slice())
    }
}

impl<I: Interface> WriteWire for Object<I> {
    fn size(&self) -> (size: u16)
        ensures
            size == 4,
    {
        4
    }

    fn write_wire(self, msg_buffer: &mut ArenaVec<u8>) -> (r: Result<(), Error>)
        ensures
            r is Ok <==> old(msg_buffer).fitting_pushes(4) == 4,
            r is Ok ==> final(msg_buffer)@ == old(msg_buffer)@ + spec_u32_to_le_bytes(self.id),
    {
        self.id.write_wire(msg_buffer)
    }
}

impl<I: Interface> WriteWire for NewId<I> {
    fn size(&self) -> (size: u16)
        ensures
            size == 4,
    {
        4
    }

    fn write_wire(self, msg_buffer: &mut ArenaVec<u8>) -> (r: Result<(), Error>)
        ensures
            r is Ok <==> old(msg_buffer).fitting_pushes(4) == 4,
            r is Ok ==> final(msg_buffer)@ == old(msg_buffer)@ + spec_u32_to_le_bytes(self.id),
    {
        self.id.write_wire(msg_buffer)
    }
}

/// The size that a string of `len` bytes counts for in the header of its
/// message: the four bytes of its length, its bytes up to a multiple of
/// four, and one for the zero byte; the largest size where that is more.
pub open spec fn string_size(len: int) -> int {
    if 4 + align_up(len, 4) + 1 <= u16::MAX {
        4 + align_up(len, 4) + 1
    } else {
        u16::MAX as int
    }
}

impl WriteWire for &str {
    fn size(&self) -> (size: u16)
        ensures
            size == string_size(self.spec_bytes().len() as int),
    {
        let len = self.as_bytes().len();
        proof {
            crate::utils::lemma_align_up(len as int, 4);
        }
        if len > 65535 {
            return u16::MAX;
        }
        let padded = align(len, 4);
        if padded > 65530 {
            u16::MAX
        } else {
            (padded + 5) as u16
        }
    }

    fn write_wire(self, msg_buffer: &mut ArenaVec<u8>) -> (r: Result<(), Error>)
        ensures
            self.spec_bytes().len() + 4 < u32::MAX ==> (r is Ok <==> old(msg_buffer).fitting_pushes(wire_string(self.spec_bytes()).len()) == wire_string(
                self.spec_bytes(),
            ).len()),
            self.spec_bytes().len() + 4 >= u32::MAX ==> r is Err,
            r is Ok ==> final(msg_buffer)@ == old(msg_buffer)@ + wire_string(self.spec_bytes()),
            final(msg_buffer).spec_reserved_memory() == old(msg_buffer).spec_reserved_memory(),
            final(msg_buffer).spec_page_size() == old(msg_buffer).spec_page_size(),
            r is Ok ==> final(msg_buffer).spec_capacity() == old(msg_buffer).capacity_after(
                wire_string(self.spec_bytes()).len(),
            ),
    {
        let text = self.as_bytes();
        if text.len() >= (u32::MAX - 4) as usize {
            return Err(Error::OutOfMemoryAddresses);
        }
        let len = text.len() + 1;
        proof {
            crate::utils::lemma_align_up(len as int, 4);
        }
        let mut bytes = u32_to_le_bytes(len as u32);
        let mut idx: usize = 0;
        let ghost head = bytes@;
        while idx < text.len()
            invariant
                idx <= text@.len(),
                bytes@ == head + text@.take(idx as int),
            decreases text@.len() - idx,
        {
            bytes.push(text[idx]);
            idx = idx + 1;
            proof {
                assert(bytes@ =~= head + text@.take(idx as int));
            }
        }
        let padded = align(len, 4);
        let mut written = text.len();
        while written < padded
            invariant
                text@.len() <= written <= padded,
                bytes@ == head + text@ + zeros((written - text@.len()) as nat),
            decreases padded - written,
        {
            bytes.push(0);
            written = written + 1;
            proof {
                assert(bytes@ =~= head + text@ + zeros((written - text@.len()) as nat));
            }
        }
        proof {
            assert(bytes@ =~= wire_string(text@));
        }
        msg_buffer.try_write_all(bytes.as_slice())
    }
}

impl<I: Interface> WriteWire for UntypedNewId<I> {
    /// The size of the name of the interface, of its version and of the
    /// id; the largest size where that is more.
    fn size(&self) -> (size: u16)
        ensures
            size >= 8,
            exists|name: &'static str| #[trigger]
                call_ensures(I::ffi_name, (), name) && size == (if string_size(
                    name.spec_bytes().len() as int,
                ) + 8 <= u16::MAX {
                    string_size(name.spec_bytes().len() as int) + 8
                } else {
                    u16::MAX as int
                }),
    {
        let name = I::ffi_name();
        let name_size = name.size();
        name_size.saturating_add(8)
    }

    /// Writes the name of the interface, its version and the id, where the
    /// buffer takes all of them, and nothing where it does not: the name
    /// and the version are what the interface gives when it is asked.
    fn write_wire(self, msg_buffer: &mut ArenaVec<u8>) -> (r: Result<(), Error>)
        ensures
            exists|name: &'static str, version: u32|
                #![trigger call_ensures(I::ffi_name, (), name), call_ensures(I::version, (), version)]
                {
                    &&& call_ensures(I::ffi_name, (), name)
                    &&& call_ensures(I::version, (), version)
                    &&& r is Ok <==> name.spec_bytes().len() + 4 < u32::MAX && old(
                        msg_buffer,
                    ).fitting_pushes(wire_string(name.spec_bytes()).len() + 8) == wire_string(
                        name.spec_bytes(),
                    ).len() + 8
                    &&& r is Ok ==> final(msg_buffer)@ == old(msg_buffer)@ + wire_string(
                        name.spec_bytes(),
                    ) + spec_u32_to_le_bytes(version) + spec_u32_to_le_bytes(self.id)
                },
    {
        broadcast use vstd::layout::layout_of_primitives;

        let before = msg_buffer.len();
        let ghost start = *msg_buffer;
        let name = I::ffi_name();
        let version = I::version();
        let ghost text = wire_string(name.spec_bytes()).len();
        proof {
            lemma_fit_concat(
                start.used_memory(),
                start.spec_capacity(),
                start.spec_reserved_memory(),
                1,
                start.spec_page_size(),
                text,
                8,
            );
            assert(text * 1 == text) by (nonlinear_arith);
        }
        let written = match name.write_wire(msg_buffer) {
            Ok(()) => {
                let ghost named = *msg_buffer;
                proof {
                    assert(named.used_memory() == start.used_memory() + text) by (nonlinear_arith)
                        requires
                            named@.len() == start@.len() + text,
                            named.used_memory() == named@.len() * 1,
                            start.used_memory() == start@.len() * 1,
                    ;
                    lemma_fit_concat(
                        named.used_memory(),
                        named.spec_capacity(),
                        named.spec_reserved_memory(),
                        1,
                        named.spec_page_size(),
                        4,
                        4,
                    );
                }
                match version.write_wire(msg_buffer) {
                    Ok(()) => {
                        proof {
                            lemma_auto_spec_u32_to_from_le_bytes();
                            assert(msg_buffer.used_memory() == named.used_memory() + 4 * 1)
                                by (nonlinear_arith)
                                requires
                                    msg_buffer@.len() == named@.len() + 4,
                                    msg_buffer.used_memory() == msg_buffer@.len() * 1,
                                    named.used_memory() == named@.len() * 1,
                            ;
                        }
                        self.id.write_wire(msg_buffer)
                    },
                    Err(e) => Err(e),
                }
            },
            Err(e) => Err(e),
        };
        match written {
            Ok(()) => {
                proof {
                    assert(msg_buffer@ == start@ + wire_string(name.spec_bytes())
                        + spec_u32_to_le_bytes(version) + spec_u32_to_le_bytes(self.id));
                }
                Ok(())
            },
            Err(e) => {
                msg_buffer.truncate(before);
                proof {
                    assert(msg_buffer@ =~= start@);
                }
                Err(e)
            },
        }
    }
}

/// What can be read from the wire as an argument of a message.
pub trait ReadWire<'a>: Sized {
    /// Reads the argument that comes next, or reports, by `None`, that the
    /// message ends before it.
    fn read_wire(wire: &mut WireDecoder<'a>) -> (read: Option<Self>)
        ensures
            final(wire).bytes == old(wire).bytes,
            read is None ==> final(wire).progress == old(wire).progress,
    ;
}

impl<'a> ReadWire<'a> for u32 {
    fn read_wire(wire: &mut WireDecoder<'a>) -> (read: Option<Self>)
        ensures
            old(wire).progress + 4 <= old(wire).bytes@.len() ==> read == Some(
                spec_u32_from_le_bytes(
                    old(wire).bytes@.subrange(old(wire).progress as int, old(wire).progress + 4),
                ),
            ) && final(wire).progress == old(wire).progress + 4,
            old(wire).progress + 4 > old(wire).bytes@.len() ==> read is None,
    {
        wire.read_u32()
    }
}

/// The text that bytes stand for when what is no UTF-8 among them is
/// replaced: what is valid is decoded as it is, and the replacement
/// character stands in the place of every run of bytes that is no text.
pub uninterp spec fn lossy_text(bytes: Seq<u8>) -> Seq<char>;

/// The text that `bytes` stand for, with the replacement character in the
/// place of every run of bytes that is no text.
///
/// Wraps [`String::from_utf8_lossy`], whose result depends on the bytes
/// alone and is named here, and which decodes what is valid UTF-8 as it
/// is: bytes that are valid UTF-8 give the text that they encode.
#[verifier::external_body]
fn text_from_bytes(bytes: &[u8]) -> (text: String)
    ensures
        text@ == lossy_text(bytes@),
        vstd::utf8::valid_utf8(bytes@) ==> text@ == vstd::utf8::decode_utf8(bytes@),
{
    String::from_utf8_lossy(bytes).to_string()
}

impl<'a> ReadWire<'a> for String {
    /// Reads the string that comes next and gives its text, with the
    /// replacement character wherever its bytes are no UTF-8.
    fn read_wire(wire: &mut WireDecoder<'a>) -> (read: Option<Self>)
        ensures
            match string_at(old(wire).bytes@, old(wire).progress as int) {
                Some(found) => read is Some && final(wire).progress == found.1 && read.unwrap()@
                    == lossy_text(found.0) && (vstd::utf8::valid_utf8(found.0) ==> read.unwrap()@
                    == vstd::utf8::decode_utf8(found.0)),
                None => read is None,
            },
    {
        match wire.read_string_bytes() {
            Some(bytes) => Some(text_from_bytes(bytes)),
            None => None,
        }
    }
}

impl<'a> WireDecoder<'a> {
    /// The next argument of the message, read as a `T` reads itself: what
    /// comes back and how far the decoder moves on is what `T` says of
    /// reading from a decoder in this state.
    pub fn decode<T: ReadWire<'a>>(&mut self) -> (read: Option<T>)
        ensures
            final(self).bytes == old(self).bytes,
            read is None ==> final(self).progress == old(self).progress,
            exists|inner: &mut WireDecoder<'a>|
                *inner == *old(self) && *final(inner) == *final(self) && #[trigger] call_ensures(
                    T::read_wire,
                    (inner,),
                    read,
                ),
    {
        T::read_wire(self)
    }
}

} // verus!
