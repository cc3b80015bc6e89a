use scaffolding::datatypes::arenavec::{ArenaVec, Error};
use scaffolding::ui::wire::{
    Interface, NewId, Object, ReadWire, UntypedNewId, WireDecoder, WireMsgHeader, WriteWire,
    WIRE_HEADER_SIZE,
};

struct Registry;
impl Interface for Registry {
    fn version() -> u32 {
        3
    }

    fn ffi_name() -> &'static str {
        "wl_registry"
    }
}

#[test]
fn headers_are_read_back() {
    let header = WireMsgHeader { object: 0x0102_0304, opcode: 0x0506, len: 0x0708 };
    let bytes = header.encode();
    assert_eq!(bytes, [4, 3, 2, 1, 6, 5, 8, 7]);
    assert_eq!(WireMsgHeader::decode(&bytes), Some(header));
    assert_eq!(WireMsgHeader::decode(&bytes[..7]), None);
    let decoder = WireDecoder::new(&bytes);
    assert_eq!(decoder.header(), Some(header));
    assert_eq!(decoder.progress, WIRE_HEADER_SIZE);
    assert_eq!(WireDecoder::new(&[]).header(), None);
}

#[test]
fn arguments_are_read_in_order() {
    let mut message = WireMsgHeader { object: 1, opcode: 0, len: 28 }.encode();
    message.extend_from_slice(&7u32.to_le_bytes());
    message.extend_from_slice(&6u32.to_le_bytes());
    message.extend_from_slice(b"wl_sh\0\0\0");
    message.extend_from_slice(&9u32.to_le_bytes());
    let mut decoder = WireDecoder::new(&message);
    assert_eq!(decoder.decode::<u32>(), Some(7));
    assert_eq!(decoder.decode::<String>(), Some(String::from("wl_sh")));
    assert_eq!(decoder.progress, 24);
    assert_eq!(u32::read_wire(&mut decoder), Some(9));
    assert_eq!(decoder.read_u32(), None);
    assert_eq!(decoder.progress, 28);
    assert_eq!(decoder.read_next(0), Some(&[][..]));
    assert_eq!(decoder.read_next(1), None);
}

#[test]
fn a_short_message_gives_nothing() {
    let mut message = vec![0; 8];
    message.extend_from_slice(&6u32.to_le_bytes());
    message.extend_from_slice(b"wl_s");
    let mut decoder = WireDecoder::new(&message);
    assert_eq!(decoder.read_string_bytes(), None);
    assert_eq!(decoder.decode::<String>(), None);
    assert_eq!(decoder.progress, 8);
    assert_eq!(decoder.read_next(8), Some(&message[8..]));
    // A string without a length is no string.
    let mut message = vec![0; 8];
    message.extend_from_slice(&0u32.to_le_bytes());
    let mut decoder = WireDecoder::new(&message);
    assert_eq!(decoder.read_string_bytes(), None);
    assert_eq!(decoder.progress, 8);
    // Bytes that are no text come out with the replacement character.
    let mut message = vec![0; 8];
    message.extend_from_slice(&3u32.to_le_bytes());
    message.extend_from_slice(b"a\xFF\0\0");
    let mut decoder = WireDecoder::new(&message);
    assert_eq!(decoder.decode::<String>(), Some(String::from("a\u{FFFD}")));
}

#[test]
fn arguments_are_written_as_they_are_read() {
    let mut buffer: ArenaVec<u8> = ArenaVec::new();
    assert_eq!(7u32.write_wire(&mut buffer), Ok(()));
    assert_eq!((-2i32).write_wire(&mut buffer), Ok(()));
    assert_eq!("abc".write_wire(&mut buffer), Ok(()));
    assert_eq!("abcd".write_wire(&mut buffer), Ok(()));
    assert_eq!(Object::<Registry>::with_id(5).write_wire(&mut buffer), Ok(()));
    assert_eq!(NewId::<Registry>::with_id(6).write_wire(&mut buffer), Ok(()));
    assert_eq!(
        buffer.as_slice(),
        [
            7, 0, 0, 0, 0xFE, 0xFF, 0xFF, 0xFF, 4, 0, 0, 0, b'a', b'b', b'c', 0, 5, 0, 0, 0, b'a',
            b'b', b'c', b'd', 0, 0, 0, 0, 5, 0, 0, 0, 6, 0, 0, 0
        ]
    );
    let mut message = vec![0; 8];
    message.extend_from_slice(buffer.as_slice());
    let mut decoder = WireDecoder::new(&message);
    assert_eq!(decoder.decode::<u32>(), Some(7));
    assert_eq!(decoder.decode::<u32>(), Some(0xFFFF_FFFE));
    assert_eq!(decoder.decode::<String>(), Some(String::from("abc")));
    assert_eq!(decoder.decode::<String>(), Some(String::from("abcd")));
    assert_eq!(decoder.decode::<u32>(), Some(5));
    assert_eq!(decoder.decode::<u32>(), Some(6));
    assert_eq!(decoder.decode::<u32>(), None);
}

#[test]
fn sizes_for_the_header() {
    assert_eq!(7u32.size(), 4);
    assert_eq!(7i32.size(), 4);
    assert_eq!(Object::<Registry>::with_id(5).size(), 4);
    assert_eq!(NewId::<Registry>::with_id(5).size(), 4);
    assert_eq!("".size(), 5);
    assert_eq!("abc".size(), 9);
    assert_eq!("abcd".size(), 9);
    assert_eq!("abcde".size(), 13);
    assert_eq!("a".repeat(65_528).as_str().size(), 65_533);
    assert_eq!("a".repeat(65_529).as_str().size(), u16::MAX);
    assert_eq!("a".repeat(70_000).as_str().size(), u16::MAX);
    assert_eq!(UntypedNewId::<Registry>::with_id(5).size(), 25);
}

#[test]
fn ids_keep_their_number() {
    let new_id = NewId::<Registry>::with_id(9);
    assert_eq!(new_id.id, 9);
    let untyped = new_id.untyped();
    assert_eq!(untyped.id, 9);
    assert_eq!(Object::from_new_id(untyped.typed()).id, 9);
    let mut buffer: ArenaVec<u8> = ArenaVec::new();
    assert_eq!(UntypedNewId::<Registry>::with_id(9).write_wire(&mut buffer), Ok(()));
    let mut message = vec![0; 8];
    message.extend_from_slice(buffer.as_slice());
    let mut decoder = WireDecoder::new(&message);
    assert_eq!(decoder.decode::<String>(), Some(String::from("wl_registry")));
    assert_eq!(decoder.decode::<u32>(), Some(3));
    assert_eq!(decoder.decode::<u32>(), Some(9));
}

#[test]
fn a_full_buffer_takes_no_argument() {
    let mut buffer: ArenaVec<u8> = ArenaVec::with_reserved_memory(4096);
    buffer.resize(4090, 0);
    assert_eq!("abc".write_wire(&mut buffer), Err(Error::OutOfMemoryAddresses));
    assert_eq!(UntypedNewId::<Registry>::with_id(9).write_wire(&mut buffer), Err(Error::OutOfMemoryAddresses));
    assert_eq!(buffer.len(), 4090);
    assert_eq!(7u32.write_wire(&mut buffer), Ok(()));
    assert_eq!(7u32.write_wire(&mut buffer), Err(Error::OutOfMemoryAddresses));
    assert_eq!(buffer.len(), 4094);
    assert_eq!(buffer.try_write_all(&[1, 2]), Ok(()));
    assert_eq!(buffer.try_write_all(&[1]), Err(Error::OutOfMemoryAddresses));
    assert_eq!(buffer.try_extend_from_bytes(&[]), Ok(()));
}
