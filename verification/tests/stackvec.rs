use scaffolding::datatypes::stackvec::StackVec;

#[test]
fn push() {
    let mut sv: StackVec<u32, 3> = StackVec::default();
    assert_eq!(sv.len(), 0);
    sv.push(0);
    assert_eq!(sv.len(), 1);
    sv.push(0);
    assert_eq!(sv.len(), 2);
    sv.push(0);
    assert_eq!(sv.len(), 3);
}

#[test]
fn into_iter() {
    let mut sv: StackVec<u32, 4> = StackVec::default();
    sv.push(0);
    sv.push(1);
    sv.push(2);
    sv.push(3);

    let mut iter = sv.into_iter();
    assert_eq!(iter.next(), Some(0));
    assert_eq!(iter.next(), Some(1));
    assert_eq!(iter.next(), Some(2));
    assert_eq!(iter.next(), Some(3));
    assert_eq!(iter.next(), None);
}

#[test]
fn iter() {
    let mut sv: StackVec<u32, 4> = StackVec::default();
    sv.push(0);
    sv.push(1);
    sv.push(2);
    sv.push(3);

    let mut iter = sv.iter();
    assert_eq!(iter.next(), Some(&0));
    assert_eq!(iter.next(), Some(&1));
    assert_eq!(iter.next(), Some(&2));
    assert_eq!(iter.next(), Some(&3));
    assert_eq!(iter.next(), None);
}

#[test]
fn iter_mut() {
    let mut sv: StackVec<u32, 4> = StackVec::default();
    sv.push(0);
    sv.push(1);
    sv.push(2);
    sv.push(3);

    let mut iter = sv.iter_mut();
    assert_eq!(iter.next(), Some(&mut 0));
    assert_eq!(iter.next(), Some(&mut 1));
    assert_eq!(iter.next(), Some(&mut 2));
    assert_eq!(iter.next(), Some(&mut 3));
    assert_eq!(iter.next(), None);
}

#[test]
fn with_capacity() {
    let sv: StackVec<u32, 3> = StackVec::with_capacity(4);
    assert_eq!(sv.capacity(), 4);
}

#[test]
fn stackvec_spills_into_the_heap() {
    let mut sv: StackVec<u32, 2> = StackVec::new();
    for i in 0..5 {
        sv.push(i * 10);
    }
    assert_eq!(sv.len(), 5);
    assert!(!sv.is_empty());
    for i in 0..5usize {
        assert_eq!(sv.get(i), Some(&(i as u32 * 10)));
    }
    assert_eq!(sv.get(5), None);
    *sv.get_mut(1).unwrap() = 7;
    *sv.get_mut(3).unwrap() = 9;
    assert_eq!(sv.get_mut(5), None);
    assert!(sv.vec_capacity() >= 3);
    let mut iter = sv.iter();
    assert_eq!(iter.next(), Some(&0));
    assert_eq!(iter.next(), Some(&7));
    assert_eq!(iter.next(), Some(&20));
    assert_eq!(iter.next(), Some(&9));
    assert_eq!(iter.next(), Some(&40));
    assert_eq!(iter.next(), None);
    let mut iter = sv.iter_mut();
    *iter.next().unwrap() += 1;
    *iter.next().unwrap() += 1;
    *iter.next().unwrap() += 1;
    let mut iter = sv.into_iter();
    assert_eq!(iter.next(), Some(1));
    assert_eq!(iter.next(), Some(8));
    assert_eq!(iter.next(), Some(21));
    assert_eq!(iter.next(), Some(9));
    assert_eq!(iter.next(), Some(40));
    assert_eq!(iter.next(), None);
}

#[test]
fn stackvec_clear_starts_over() {
    let mut sv: StackVec<u8, 2> = StackVec::new();
    sv.push(1);
    sv.push(2);
    sv.push(3);
    sv.clear();
    assert_eq!(sv.len(), 0);
    assert!(sv.is_empty());
    assert_eq!(sv.get(0), None);
    sv.push(4);
    sv.push(5);
    sv.push(6);
    assert_eq!(sv.get(0), Some(&4));
    assert_eq!(sv.get(2), Some(&6));
    assert_eq!(sv.get(3), None);
}
