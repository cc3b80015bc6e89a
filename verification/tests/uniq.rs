use scaffolding::datatypes::uniq::{key_from_hash, uniq_key, Uniq, UniqKey};

#[allow(dead_code)]
fn is_send<T: Send>(_t: T) {}

/// Adds 1 to a cached value in the given `Uniq`, then asserts the number is
/// the same as the expected one.
fn add_one_and_check(uniq: &mut Uniq, expected: usize) {
    let val = uniq.get_or_default(uniq_key("tests/uniq.rs", 10, 34, &[]), 8);
    let mut num = usize::from_le_bytes(val.try_into().unwrap());
    num += 1;
    val.copy_from_slice(&num.to_le_bytes());

    assert_eq!(num, expected);
}

#[test]
fn types_test() {
    // Uniq should be Send
    is_send(Uniq::default());
}

#[test]
fn test_in_loop() {
    let mut uniq = Uniq::default();

    for i in 1..10 {
        add_one_and_check(&mut uniq, i);
    }
    for i in (10..20).step_by(2) {
        add_one_and_check(&mut uniq, i);
        add_one_and_check(&mut uniq, i + 1);
    }
}

#[test]
fn macro_tests() {
    assert_ne!(
        uniq_key("tests/uniq.rs", 42, 20, &[]),
        uniq_key("tests/uniq.rs", 42, 33, &[])
    );

    fn with_hash(h: &[u8]) -> UniqKey {
        uniq_key("tests/uniq.rs", 46, 13, h)
    }
    assert_ne!(with_hash(b"h"), with_hash(&1i32.to_le_bytes()));

    fn breaks() -> UniqKey {
        uniq_key("tests/uniq.rs", 51, 13, &[])
    }
    assert_eq!(breaks(), breaks());
}

#[test]
fn works() {
    let mut uniq = Uniq::default();

    for current in 0..5u32 {
        let stored = uniq.get_or_default(uniq_key("tests/uniq.rs", 61, 32, &[]), 4);

        assert_eq!(u32::from_le_bytes(stored.try_into().unwrap()), current);

        stored.copy_from_slice(&(current + 1).to_le_bytes());
    }
}

#[test]
fn second_visit_finds_what_the_first_left() {
    let mut uniq = Uniq::with_capacity(4);
    let first = uniq.get(UniqKey::new(7), || vec![1, 2, 3]);
    assert_eq!(first, &[1, 2, 3]);
    first[0] = 9;
    let second = uniq.get(UniqKey::new(7), || vec![0, 0, 0]);
    assert_eq!(second, &[9, 2, 3]);
    assert_eq!(uniq.peek(&UniqKey::new(7)), Some(&[9u8, 2, 3][..]));
    assert_eq!(uniq.peek(&UniqKey::new(8)), None);
    assert_eq!(uniq.used_entries(), 1);
}

#[test]
fn colliding_keys_keep_their_values_through_growth() {
    let mut uniq = Uniq::with_capacity(2);
    // All keys start their search at bucket 1.
    for key in [1usize, 3, 5, 7, 9] {
        let value = uniq.get(UniqKey::new(key), || vec![key as u8; 2]);
        assert_eq!(value, &[key as u8; 2]);
        value[1] = 0;
    }
    assert_eq!(uniq.used_entries(), 5);
    assert_eq!(uniq.capacity(), 8);
    for key in [1usize, 3, 5, 7, 9] {
        assert_eq!(uniq.peek(&UniqKey::new(key)), Some(&[key as u8, 0][..]));
        let value = uniq.try_get(UniqKey::new(key), || vec![]).unwrap();
        assert_eq!(value, &[key as u8, 0]);
    }
    assert_eq!(uniq.used_entries(), 5);
}

#[test]
fn buckets_double_only_on_a_collision() {
    let mut uniq = Uniq::with_capacity(2);
    uniq.get(UniqKey::new(0), || vec![1]);
    uniq.get(UniqKey::new(1), || vec![2]);
    assert_eq!(uniq.capacity(), 2);
    assert_eq!(uniq.used_entries(), 2);
    uniq.get(UniqKey::new(2), || vec![3]);
    assert_eq!(uniq.capacity(), 4);
    assert_eq!(uniq.peek(&UniqKey::new(0)), Some(&[1u8][..]));
    assert_eq!(uniq.peek(&UniqKey::new(1)), Some(&[2u8][..]));
    assert_eq!(uniq.peek(&UniqKey::new(2)), Some(&[3u8][..]));
}

#[test]
fn keys_fold_the_hash() {
    assert_eq!(key_from_hash(5).key(), 5);
    assert_eq!(key_from_hash(u64::MAX).key(), 0);
    assert_eq!(key_from_hash(u64::MAX - 1).key(), usize::MAX - 1);
    assert_eq!(UniqKey::new(3).key(), 3);
    assert!(uniq_key("a", 1, 1, &[]).key() < usize::MAX);
}
