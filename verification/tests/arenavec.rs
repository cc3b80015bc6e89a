use scaffolding::datatypes::arenavec::{plan_growth, ArenaVec, Error};

#[test]
fn do_it_work_tho() {
    let mut vec = ArenaVec::default();
    println!("ello");
    vec.push(0);
    println!("ello");
    vec.push(1);
    println!("ello");
    vec.push(2);
    println!("ello");

    assert_eq!(*vec.get(0).unwrap(), 0);
    println!("ello");
    assert_eq!(*vec.get(1).unwrap(), 1);
    println!("ello");
    assert_eq!(*vec.get(2).unwrap(), 2);
    println!("ello");
}

#[test]
fn remove() {
    let mut vec = ArenaVec::default();
    vec.push(0);
    vec.push(1);
    vec.push(2);

    assert_eq!(vec.remove(1).unwrap(), 1);
    assert_eq!(*vec.get(0).unwrap(), 0);
    assert_eq!(*vec.get(1).unwrap(), 2);
    assert_eq!(vec.get(2), None);
}

#[test]
fn basic_iter() {
    let mut vec = ArenaVec::default();
    vec.push(0);
    vec.push(1);
    vec.push(2);

    let mut iter = vec.iter();
    assert_eq!(iter.next(), Some(&0));
    assert_eq!(iter.next(), Some(&1));
    assert_eq!(iter.next(), Some(&2));
    assert_eq!(iter.next(), None);

    assert_eq!(*vec.get(0).unwrap(), 0);
    assert_eq!(*vec.get(1).unwrap(), 1);
    assert_eq!(*vec.get(2).unwrap(), 2);
    assert_eq!(vec.get(3), None);
}

#[test]
fn basic_iter_mut() {
    let mut vec = ArenaVec::default();
    vec.push(0);
    vec.push(1);
    vec.push(2);

    let mut iter = vec.iter_mut();
    assert_eq!(iter.next(), Some(&mut 0));
    assert_eq!(iter.next(), Some(&mut 1));
    assert_eq!(iter.next(), Some(&mut 2));
    assert_eq!(iter.next(), None);

    assert_eq!(*vec.get(0).unwrap(), 0);
    assert_eq!(*vec.get(1).unwrap(), 1);
    assert_eq!(*vec.get(2).unwrap(), 2);
    assert_eq!(vec.get(3), None);
}

#[test]
fn iter_mut_modify() {
    let mut vec = ArenaVec::default();
    vec.push(0);
    vec.push(1);
    vec.push(2);

    let mut iter = vec.iter_mut();
    let num = iter.next().unwrap();
    *num += 1;
    assert_eq!(num, &mut 1);
    let num = iter.next().unwrap();
    *num += 1;
    assert_eq!(num, &mut 2);
    let num = iter.next().unwrap();
    *num += 1;
    assert_eq!(num, &mut 3);
    assert_eq!(iter.next(), None);

    assert_eq!(*vec.get(0).unwrap(), 1);
    assert_eq!(*vec.get(1).unwrap(), 2);
    assert_eq!(*vec.get(2).unwrap(), 3);
    assert_eq!(vec.get(3), None);
}

#[test]
fn basic_into_iter() {
    let mut vec = ArenaVec::default();
    vec.push(0);
    vec.push(1);
    vec.push(2);

    let mut iter = vec.into_iter();
    assert_eq!(iter.next(), Some(0));
    assert_eq!(iter.next(), Some(1));
    assert_eq!(iter.next(), Some(2));
    assert_eq!(iter.next(), None);
}

#[test]
fn clear() {
    let mut vec = ArenaVec::default();
    vec.push(0);
    vec.push(1);
    vec.push(2);

    assert_eq!(vec.len(), 3);
    vec.clear();
    assert_eq!(vec.len(), 0);

    vec.push(0);
    vec.push(1);
    vec.push(1);
    vec.push(1);
    vec.push(1);
    assert_eq!(vec.len(), 5);
}

#[test]
fn hundred_pushes_stay_in_place() {
    let mut vec: ArenaVec<u32> = ArenaVec::with_reserved_memory(400);
    assert_eq!(vec.reserved_memory(), 4096);
    let mut seen = Vec::new();
    for i in 0..100u32 {
        vec.push(i);
        seen.push(vec.address_of(i as usize));
        for j in 0..=i as usize {
            assert_eq!(vec.address_of(j), seen[j]);
            assert_eq!(vec.address_of(j), Some(j * 4));
        }
    }
    assert_eq!(vec.len(), 100);
    assert_eq!(*vec.get(50).unwrap(), 50);
    assert_eq!(vec.address_of(100), None);
}

#[test]
fn growth_doubles_by_pages() {
    let mut vec: ArenaVec<u8> = ArenaVec::with_reserved_memory(4 * 4096);
    assert_eq!(vec.capacity(), 0);
    vec.push(1);
    assert_eq!(vec.capacity(), 4096);
    for _ in 1..4096 {
        vec.push(0);
    }
    assert_eq!(vec.capacity(), 4096);
    vec.push(2);
    assert_eq!(vec.capacity(), 2 * 4096);
    for _ in 4097..8192 {
        vec.push(0);
    }
    assert_eq!(vec.capacity(), 2 * 4096);
    // Doubling would pass the reservation: the rest of it is committed.
    vec.push(3);
    assert_eq!(vec.capacity(), 4 * 4096);
    assert_eq!(vec.len(), 8193);
}

#[test]
fn exhausted_reservation_is_an_error() {
    let mut vec: ArenaVec<u8> = ArenaVec::with_reserved_memory(4096);
    for i in 0..4096u32 {
        assert_eq!(vec.try_push(i as u8), Ok(()));
    }
    assert_eq!(vec.try_push(0), Err(Error::OutOfMemoryAddresses));
    assert_eq!(vec.len(), 4096);
    assert_eq!(vec.capacity(), 4096);
    assert_eq!(*vec.get(4095).unwrap(), 255);
    assert_eq!(vec.try_reserve(1), Err(Error::OutOfMemoryAddresses));
    assert_eq!(vec.try_reserve(0), Ok(()));
}

#[test]
fn out_of_bounds_is_none() {
    let mut vec: ArenaVec<u64> = ArenaVec::new();
    assert_eq!(vec.get(0), None);
    assert_eq!(vec.get_mut(0), None);
    assert_eq!(vec.remove(0), None);
    assert_eq!(vec.pop(), None);
    vec.push(7);
    assert_eq!(vec.get(1), None);
    assert_eq!(vec.remove(1), None);
    assert_eq!(vec.pop(), Some(7));
    assert!(vec.is_empty());
}

#[test]
fn constructors_round_the_reservation() {
    let vec: ArenaVec<u8> = ArenaVec::with_reserved_memory(1);
    assert_eq!(vec.reserved_memory(), 4096);
    assert_eq!(vec.capacity(), 0);
    assert_eq!(vec.page_size(), 4096);
    let vec: ArenaVec<u8> = ArenaVec::with_reserved_memory_and_capacity(5000, 10);
    assert_eq!(vec.reserved_memory(), 8192);
    assert_eq!(vec.capacity(), 10);
    let vec: ArenaVec<u8> = ArenaVec::with_page_size(100, 0, 64);
    assert_eq!(vec.reserved_memory(), 128);
    assert_eq!(vec.page_size(), 64);
    let vec: ArenaVec<u8> = ArenaVec::with_capacity(16);
    assert_eq!(vec.capacity(), 16);
    assert_eq!(vec.reserved_memory(), ArenaVec::<u8>::default_reserved_memory());
    assert_eq!(ArenaVec::<u8>::default_reserved_memory(), 10 * 1024 * 1024 * 1024);
}

#[test]
fn remaining_space_counts_elements() {
    let mut vec: ArenaVec<u32> = ArenaVec::with_reserved_memory(4096);
    assert_eq!(vec.remaining_space(), 1024);
    vec.push(1);
    assert_eq!(vec.remaining_space(), 1023);
    let vec: ArenaVec<[u8; 3]> = ArenaVec::with_reserved_memory(4096);
    assert_eq!(vec.remaining_space(), 1366);
}

#[test]
fn retain_removes_where_true() {
    let mut vec = ArenaVec::default();
    for i in 0..10 {
        vec.push(i);
    }
    vec.retain(|x| x % 2 == 0);
    assert_eq!(vec.as_slice(), &[1, 3, 5, 7, 9]);
    vec.retain_mut(|x| {
        *x += 1;
        *x > 6
    });
    assert_eq!(vec.as_slice(), &[2, 4, 6]);
}

#[test]
fn truncate_and_resize() {
    let mut vec = ArenaVec::default();
    vec.resize(4, 7u16);
    assert_eq!(vec.as_slice(), &[7, 7, 7, 7]);
    vec.truncate(9);
    assert_eq!(vec.len(), 4);
    vec.truncate(2);
    assert_eq!(vec.as_slice(), &[7, 7]);
    let mut n = 0;
    vec.resize_with(4, || {
        n += 1;
        n
    });
    assert_eq!(vec.as_slice(), &[7, 7, 1, 2]);
    assert_eq!(vec.try_resize(1, 0), Ok(()));
    assert_eq!(vec.as_slice(), &[7]);
    assert_eq!(vec.try_resize_with(3, || 5), Ok(()));
    assert_eq!(vec.as_slice(), &[7, 5, 5]);
}

#[test]
fn resize_stops_at_the_reservation() {
    let mut vec: ArenaVec<u8> = ArenaVec::with_reserved_memory(4096);
    assert_eq!(vec.try_resize(5000, 1), Err(Error::OutOfMemoryAddresses));
    assert_eq!(vec.len(), 4096);
}

#[test]
fn extend_from_slice_and_within() {
    let mut vec = ArenaVec::default();
    vec.extend_from_slice(&[1, 2, 3]);
    assert_eq!(vec.as_slice(), &[1, 2, 3]);
    vec.extend_from_within(1, 3);
    assert_eq!(vec.as_slice(), &[1, 2, 3, 2, 3]);
    // The range may run into what the call itself appends.
    assert_eq!(vec.try_extend_from_within(4, 7), Ok(()));
    assert_eq!(vec.as_slice(), &[1, 2, 3, 2, 3, 3, 3, 3]);
    assert_eq!(vec.try_extend_from_within(8, 9), Err(Error::IndexOutOfBounds));
    assert_eq!(vec.try_extend_from_within(9, 9), Ok(()));
    assert_eq!(vec.len(), 8);
    assert_eq!(vec.try_extend_from_slice(&[0]), Ok(()));
    assert_eq!(vec.len(), 9);
}

#[test]
fn try_extend_checks_the_space_first() {
    let mut vec: ArenaVec<u32> = ArenaVec::with_reserved_memory(4096);
    assert_eq!(vec.try_extend(vec![0; 1025]), Err(Error::OutOfMemoryAddresses));
    assert_eq!(vec.len(), 0);
    assert_eq!(vec.try_extend(vec![1, 2, 3]), Ok(()));
    assert_eq!(vec.as_slice(), &[1, 2, 3]);
}

#[test]
fn drain_empties_the_vector() {
    let mut vec = ArenaVec::default();
    vec.push(1);
    vec.push(2);
    vec.push(3);
    let capacity = vec.capacity();
    let mut drain = vec.drain();
    assert_eq!(drain.next(), Some(1));
    assert_eq!(drain.next(), Some(2));
    assert_eq!(vec.len(), 0);
    assert_eq!(vec.capacity(), capacity);
    assert_eq!(drain.next(), Some(3));
    assert_eq!(drain.next(), None);
}

#[test]
fn swap_remove_and_shrink() {
    let mut vec = ArenaVec::default();
    vec.extend_from_slice(&[10u8, 20, 30, 40]);
    assert_eq!(vec.swap_remove(1), 20);
    assert_eq!(vec.as_slice(), &[10, 40, 30]);
    assert_eq!(vec.capacity(), 4096);
    vec.shrink_to(100);
    assert_eq!(vec.capacity(), 100);
    vec.shrink_to(5000);
    assert_eq!(vec.capacity(), 100);
    vec.shrink_to(1);
    assert_eq!(vec.capacity(), 3);
    vec.reserve(10);
    assert_eq!(vec.capacity(), 4099);
    vec.shrink_to_fit();
    assert_eq!(vec.capacity(), 3);
}

#[test]
fn a_push_within_the_reservation_fits() {
    let mut vec: ArenaVec<u8> = ArenaVec::with_reserved_memory_and_capacity(4096, 1);
    vec.push(7);
    assert_eq!(vec.capacity(), 1);
    assert_eq!(vec.remaining_space(), 4095);
    assert!(vec.has_room(4095));
    assert!(!vec.has_room(4096));
    assert_eq!(vec.try_push(8), Ok(()));
    assert_eq!(vec.capacity(), 4096);
    assert_eq!(vec.as_slice(), &[7, 8]);

    let mut vec: ArenaVec<u8> = ArenaVec::with_reserved_memory_and_capacity(4096, 1);
    vec.push(7);
    assert_eq!(vec.try_resize(2, 9), Ok(()));
    assert_eq!(vec.as_slice(), &[7, 9]);

    let mut vec: ArenaVec<u8> = ArenaVec::with_reserved_memory_and_capacity(4096, 1);
    vec.push(7);
    assert_eq!(vec.try_extend_from_within(0, 1), Ok(()));
    assert_eq!(vec.as_slice(), &[7, 7]);

    let mut vec: ArenaVec<u8> = ArenaVec::with_reserved_memory_and_capacity(4096, 1);
    vec.push(7);
    vec.extend_from_slice(&[1; 4095]);
    assert_eq!(vec.len(), 4096);
    assert_eq!(vec.capacity(), 4096);
    assert_eq!(*vec.get(0).unwrap(), 7);
    assert!(!vec.has_room(1));
    assert_eq!(vec.try_push(0), Err(Error::OutOfMemoryAddresses));
}

#[test]
fn elements_that_do_not_divide_a_page_fill_the_reservation() {
    let mut vec: ArenaVec<[u8; 3]> = ArenaVec::with_reserved_memory(3 * 4096);
    for i in 0..2730u32 {
        assert_eq!(vec.try_push([i as u8; 3]), Ok(()));
    }
    assert_eq!(vec.capacity(), 2 * 4096);
    // The step would pass the reservation: the rest of it is committed.
    assert_eq!(vec.try_push([9; 3]), Ok(()));
    assert_eq!(vec.capacity(), 3 * 4096);
    for i in 2731..4096u32 {
        assert_eq!(vec.try_push([i as u8; 3]), Ok(()));
    }
    assert_eq!(vec.len(), 4096);
    assert_eq!(vec.try_push([0; 3]), Err(Error::OutOfMemoryAddresses));
    assert_eq!(vec.len(), 4096);
    assert_eq!(vec.get(0), Some(&[0; 3]));
    assert_eq!(vec.get(2729), Some(&[(2729 % 256) as u8; 3]));
    assert_eq!(vec.get(2730), Some(&[9; 3]));
}

#[test]
fn reserve_commits_as_far_as_needed() {
    let mut vec: ArenaVec<u8> = ArenaVec::with_reserved_memory(100 * 4096);
    vec.push(1);
    assert_eq!(vec.capacity(), 4096);
    // One step would commit 8192 bytes, which is short of what is asked.
    vec.reserve(10000);
    assert_eq!(vec.capacity(), 3 * 4096);
    vec.reserve(10000);
    assert_eq!(vec.capacity(), 3 * 4096);
    assert_eq!(vec.try_reserve(100 * 4096), Err(Error::OutOfMemoryAddresses));
    assert_eq!(vec.capacity(), 3 * 4096);
    assert_eq!(vec.try_reserve(100 * 4096 - 1), Ok(()));
    assert_eq!(vec.capacity(), 100 * 4096);
    assert_eq!(vec.as_slice(), &[1]);
}

#[test]
fn growth_is_planned_in_pages() {
    assert_eq!(plan_growth(0, 0, 4 * 4096, 1, 4096, 1), Some(4096));
    assert_eq!(plan_growth(4096, 4096, 4 * 4096, 1, 4096, 4097), Some(2 * 4096));
    assert_eq!(plan_growth(8192, 8192, 4 * 4096, 1, 4096, 8193), Some(4 * 4096));
    assert_eq!(plan_growth(1, 1, 4096, 1, 4096, 2), Some(4096));
    assert_eq!(plan_growth(8190, 8192, 12288, 3, 4096, 8193), Some(12288));
    assert_eq!(plan_growth(1, 4096, 100 * 4096, 1, 4096, 10001), Some(3 * 4096));
    assert_eq!(plan_growth(10, 10, 5000, 1, 4096, 11), Some(4106));
    assert_eq!(plan_growth(10, 10, 5000, 1, 4096, 4990), Some(5000));
    assert_eq!(plan_growth(4096, 4096, 4096, 1, 4096, 4097), None);
    assert_eq!(plan_growth(0, 0, 0, 4, 4096, 4), None);
    assert_eq!(plan_growth(0, 0, usize::MAX, usize::MAX, 4096, 8), Some(usize::MAX));
}
