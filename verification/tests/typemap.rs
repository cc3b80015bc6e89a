use scaffolding::datatypes::typemap::{PubTypeId, TypeMap};

// Three types as a store sees them: a tag, an alignment, and bytes.
const SOME_TYPE: PubTypeId = PubTypeId { val: (0x1111_0000_0000_0003, 1) };
const SOME_OTHER_TYPE: PubTypeId = PubTypeId { val: (0x2222_0000_0000_0004, 2) };
const SOME_ENUM: PubTypeId = PubTypeId { val: (0x3333_0000_0000_0005, 3) };

/// `SomeType { text, num }` as bytes: the number, then the text.
fn some_type(text: &str, num: u32) -> Vec<u8> {
    let mut bytes = num.to_le_bytes().to_vec();
    bytes.extend_from_slice(text.as_bytes());
    bytes
}

fn read_some_type(bytes: &[u8]) -> (String, u32) {
    let num = u32::from_le_bytes([bytes[0], bytes[1], bytes[2], bytes[3]]);
    (String::from_utf8(bytes[4..].to_vec()).unwrap(), num)
}

fn read_i32(bytes: &[u8]) -> i32 {
    i32::from_le_bytes([bytes[0], bytes[1], bytes[2], bytes[3]])
}

#[test]
fn good_typemap() {
    let mut store = TypeMap::new(3, 100);

    store.insert(SOME_TYPE, 8, &some_type("Hello!", 42));
    store.insert(SOME_OTHER_TYPE, 4, &69i32.to_le_bytes());
    store.insert(SOME_ENUM, 1, &[0]);

    let some_enum_val = store.get(SOME_ENUM).unwrap();
    let some_other_type_val = store.get(SOME_OTHER_TYPE).unwrap();
    let some_type_val = read_some_type(store.get(SOME_TYPE).unwrap());

    assert_eq!(some_type_val.0.as_str(), "Hello!");
    assert_eq!(some_type_val.1, 42);
    assert_eq!(read_i32(some_other_type_val), 69);
    assert_eq!(some_enum_val, &[0]);

    println!(
        "Final num entries: {} // Final used storage: {}",
        store.num_entries(),
        store.used_storage()
    );
    assert_eq!(store.num_entries(), 3);
    assert_eq!(store.used_storage(), 17);
}

#[test]
#[should_panic]
fn bad_typemap() {
    let mut store = TypeMap::new(2, 100);
    store.insert(SOME_TYPE, 8, &some_type("Hello!", 42));
    store.insert(SOME_OTHER_TYPE, 4, &69i32.to_le_bytes());

    let some_type_val = store.get(SOME_TYPE).unwrap();
    let some_other_type_val = store.get(SOME_OTHER_TYPE).unwrap();
    let some_enum_val = store.get(SOME_ENUM).unwrap();
    println!("{some_type_val:?} // {some_other_type_val:?} // {some_enum_val:?}");
}

#[test]
fn realloc() {
    let mut store = TypeMap::new(2, 100);
    store.insert(SOME_TYPE, 8, &some_type("Hello!", 42));
    store.insert(SOME_OTHER_TYPE, 4, &69i32.to_le_bytes());

    assert_eq!(store.available_entries(), 2);
    assert_eq!(store.storage_capacity(), 100);

    store.insert(SOME_ENUM, 1, &[0]);

    assert_eq!(store.available_entries(), 4);
    assert_eq!(store.storage_capacity(), 200);
}

#[test]
fn growth_keeps_every_value() {
    let mut store = TypeMap::new(2, 8);
    let a = PubTypeId { val: (10, 0) };
    let b = PubTypeId { val: (11, 0) };
    let c = PubTypeId { val: (12, 0) };
    store.insert(a, 1, &[1, 2, 3]);
    store.insert(b, 1, &[4, 5]);
    let offset_a = store.get_raw(a);
    let offset_b = store.get_raw(b);
    assert_eq!(offset_a, Some(0));
    assert_eq!(offset_b, Some(3));
    store.insert(c, 4, &[6, 7, 8, 9]);
    assert!(store.available_entries() > 2);
    assert!(store.storage_capacity() > 8);
    assert_eq!(store.available_entries(), 4);
    assert_eq!(store.storage_capacity(), 16);
    assert_eq!(store.get(a), Some(&[1u8, 2, 3][..]));
    assert_eq!(store.get(b), Some(&[4u8, 5][..]));
    assert_eq!(store.get(c), Some(&[6u8, 7, 8, 9][..]));
    assert_eq!(store.get_raw(a), offset_a);
    assert_eq!(store.get_raw(b), offset_b);
    assert_eq!(store.get_raw(c), Some(8));
    assert_eq!(store.used_storage(), 12);
    assert_eq!(store.unused_storage(), 4);
    assert_eq!(store.num_entries(), 3);
}

#[test]
fn second_insert_overwrites_in_place() {
    let mut store = TypeMap::new(4, 64);
    let a = PubTypeId { val: (1, 0) };
    store.insert(a, 1, &[1, 1]);
    assert_eq!(store.num_entries(), 1);
    let at = store.get_raw(a);
    store.insert(a, 1, &[2, 2]);
    assert_eq!(store.num_entries(), 1);
    assert_eq!(store.used_storage(), 2);
    assert_eq!(store.get_raw(a), at);
    assert_eq!(store.get(a), Some(&[2u8, 2][..]));
    // A value of another size goes behind the used bytes.
    store.insert(a, 1, &[3, 3, 3]);
    assert_eq!(store.num_entries(), 1);
    assert_eq!(store.get_raw(a), Some(2));
    assert_eq!(store.used_storage(), 5);
    assert_eq!(store.get(a), Some(&[3u8, 3, 3][..]));
}

#[test]
fn colliding_types_are_chained() {
    let mut store = TypeMap::new(4, 64);
    // All of these start their search at bucket 1.
    let a = PubTypeId { val: (1, 0) };
    let b = PubTypeId { val: (5, 0) };
    let c = PubTypeId { val: (9, 0) };
    let d = PubTypeId { val: (1, 7) };
    store.insert(a, 1, &[1]);
    store.insert(b, 1, &[2]);
    store.insert(c, 1, &[3]);
    assert_eq!(store.available_entries(), 4);
    assert_eq!(store.get(a), Some(&[1u8][..]));
    assert_eq!(store.get(b), Some(&[2u8][..]));
    assert_eq!(store.get(c), Some(&[3u8][..]));
    assert_eq!(store.get(d), None);
    // The bucket at which the search starts is taken, by another type.
    assert!(!store.contains(d));
    assert!(store.contains(a));
    assert!(store.contains(c));
    assert!(!store.contains(PubTypeId { val: (3, 0) }));
    store.insert(d, 1, &[4]);
    assert_eq!(store.get(d), Some(&[4u8][..]));
    assert!(store.is_full());
    store.insert(PubTypeId { val: (13, 0) }, 1, &[5]);
    assert_eq!(store.available_entries(), 8);
    assert_eq!(store.get(a), Some(&[1u8][..]));
    assert_eq!(store.get(b), Some(&[2u8][..]));
    assert_eq!(store.get(c), Some(&[3u8][..]));
    assert_eq!(store.get(d), Some(&[4u8][..]));
    assert_eq!(store.get(PubTypeId { val: (13, 0) }), Some(&[5u8][..]));
}

#[test]
fn empty_store_allocates_on_first_use() {
    let mut store = TypeMap::default();
    assert_eq!(store.available_entries(), 0);
    assert_eq!(store.storage_capacity(), 0);
    assert!(store.is_empty());
    assert!(store.is_full());
    let a = PubTypeId { val: (77, 0) };
    assert_eq!(store.get(a), None);
    assert_eq!(store.get_raw(a), None);
    assert!(store.get_mut(a).is_none());
    assert!(!store.contains(a));
    store.insert(a, 2, &[1, 2, 3, 4]);
    assert_eq!(store.available_entries(), 1);
    assert_eq!(store.storage_capacity(), 4);
    assert_eq!(store.get(a), Some(&[1u8, 2, 3, 4][..]));
    assert!(!store.is_empty());
}

#[test]
fn values_are_aligned() {
    let mut store = TypeMap::new(4, 64);
    store.insert(PubTypeId { val: (1, 0) }, 1, &[1]);
    store.insert(PubTypeId { val: (2, 0) }, 8, &[2; 8]);
    store.insert(PubTypeId { val: (3, 0) }, 4, &[3; 4]);
    assert_eq!(store.get_raw(PubTypeId { val: (1, 0) }), Some(0));
    assert_eq!(store.get_raw(PubTypeId { val: (2, 0) }), Some(8));
    assert_eq!(store.get_raw(PubTypeId { val: (3, 0) }), Some(16));
    assert_eq!(store.used_storage(), 20);
}

#[test]
fn get_mut_changes_the_value_in_place() {
    let mut store = TypeMap::new(4, 64);
    let a = PubTypeId { val: (1, 0) };
    let b = PubTypeId { val: (2, 0) };
    store.insert(a, 1, &[1, 2]);
    store.insert(b, 1, &[3, 4]);
    store.get_mut(a).unwrap()[1] = 9;
    assert_eq!(store.get(a), Some(&[1u8, 9][..]));
    assert_eq!(store.get(b), Some(&[3u8, 4][..]));
}

#[test]
fn clear_and_resize() {
    let mut store = TypeMap::new(2, 10);
    let a = PubTypeId { val: (1, 0) };
    store.insert(a, 1, &[1, 2]);
    store.resize(5, 50);
    assert_eq!(store.available_entries(), 5);
    assert_eq!(store.storage_capacity(), 50);
    assert_eq!(store.get(a), Some(&[1u8, 2][..]));
    assert_eq!(store.num_entries(), 1);
    store.clear();
    assert_eq!(store.num_entries(), 0);
    assert_eq!(store.used_storage(), 0);
    assert_eq!(store.available_entries(), 5);
    assert_eq!(store.storage_capacity(), 50);
    assert_eq!(store.get(a), None);
    assert!(PubTypeId { val: (1, 0) }.same(&a));
    assert!(!PubTypeId { val: (1, 1) }.same(&a));
}
