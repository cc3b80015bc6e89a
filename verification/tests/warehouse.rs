use scaffolding::datatypes::arenavec::ArenaVec;
use scaffolding::datatypes::stackvec::StackVec;
use scaffolding::datatypes::typemap::{PubTypeId, TypeMap};
use scaffolding::datatypes::warehouse::{Reset, Warehouse};

#[derive(Default, Debug, PartialEq)]
struct Scratch {
    notes: Vec<u8>,
    resets: u32,
}
impl Reset for Scratch {
    fn reset(&mut self) {
        self.notes.clear();
        self.resets += 1;
    }
}

#[test]
fn instances_come_back_reset() {
    let mut warehouse: Warehouse<Scratch> = Warehouse::with_reserved_memory(4096);
    let mut first = warehouse.take_instance();
    assert_eq!(first, Scratch::default());
    first.notes.push(1);
    warehouse.return_instance(first);
    let mut second = warehouse.get_instance();
    assert_eq!(second.as_ref(), &Scratch { notes: vec![], resets: 1 });
    second.as_mut().notes.push(2);
    let third = warehouse.take_instance();
    assert_eq!(third.resets, 0);
    second.give_back(&mut warehouse);
    warehouse.return_instance(third);
    assert_eq!(warehouse.take_instance().resets, 2);
    assert_eq!(warehouse.take_instance().resets, 1);
    assert_eq!(warehouse.take_instance().resets, 0);
}

#[test]
fn containers_reset_to_empty() {
    let mut vec: ArenaVec<u8> = ArenaVec::new();
    vec.push(1);
    vec.reset();
    assert!(vec.is_empty());
    let mut sv: StackVec<u8, 1> = StackVec::new();
    sv.push(1);
    sv.push(2);
    sv.reset();
    assert!(sv.is_empty());
    let mut store = TypeMap::new(1, 1);
    store.insert(PubTypeId { val: (1, 1) }, 1, &[1]);
    store.reset();
    assert!(store.is_empty());
    let mut plain = vec![1, 2, 3];
    plain.reset();
    assert!(plain.is_empty());
}

#[test]
fn a_warehouse_says_when_it_is_full() {
    let mut warehouse: Warehouse<Scratch> = Warehouse::with_reserved_memory(4096);
    let mut count = 0;
    while warehouse.has_room() {
        warehouse.return_instance(Scratch::default());
        count += 1;
    }
    assert_eq!(count, 4096 / std::mem::size_of::<Scratch>());
    let taken = warehouse.take_instance();
    assert_eq!(taken.resets, 1);
    assert!(warehouse.has_room());
    taken_back(&mut warehouse, taken);
    assert!(!warehouse.has_room());
}

fn taken_back(warehouse: &mut Warehouse<Scratch>, instance: Scratch) {
    warehouse.return_instance(instance);
}
