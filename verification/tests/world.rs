use scaffolding::datatypes::typemap::PubTypeId;
use scaffolding::datatypes::uniq::UniqKey;
use scaffolding::world::{
    read_frame, Executable, ExecutableWithState, FrameLocation, MsgSender, Mutation, MutationSet,
    Plugin, Singleton, TypeErasedExecutable, Uniqs, World, HEADER_SIZE,
};

const NUM_I32: PubTypeId = PubTypeId { val: (100, 1) };
const NUM_U32: PubTypeId = PubTypeId { val: (101, 1) };
const HANDLER_A: PubTypeId = PubTypeId { val: (7, 70) };
const HANDLER_B: PubTypeId = PubTypeId { val: (8, 80) };

struct AddOne;
impl Executable for AddOne {
    type Output = i32;

    fn execute(self, world: &mut World) -> i32 {
        let bytes = world.get_singleton_mut(NUM_I32);
        let num = i32::from_le_bytes(bytes.try_into().unwrap()) + 1;
        bytes.copy_from_slice(&num.to_le_bytes());
        num
    }
}

struct ReadBoth;
impl Executable for ReadBoth {
    type Output = (i32, u32);

    fn execute(self, world: &mut World) -> (i32, u32) {
        let a = *Singleton::new(&i32::from_le_bytes(
            world.get_singleton(NUM_I32).try_into().unwrap(),
        ))
        .get();
        let b = u32::from_le_bytes(world.get_singleton(NUM_U32).try_into().unwrap());
        (a, b)
    }
}

struct Nothing;
impl Executable for Nothing {
    type Output = ();

    fn execute(self, _: &mut World) {}
}

struct Stateful;
impl ExecutableWithState<u32> for Stateful {
    type Output = u32;

    fn execute(self, state: u32, world: &mut World) -> u32 {
        state + u32::from_le_bytes(world.get_singleton(NUM_U32).try_into().unwrap())
    }
}

struct Sends(String);
impl Executable for Sends {
    type Output = ();

    fn execute(self, world: &mut World) {
        MsgSender(world).send(HANDLER_A, self.0.as_bytes());
    }
}

fn accepts_executable<E: Executable>(executable: E) -> E::Output {
    let mut world = World::new();
    world.add_singleton(NUM_U32, 4, &0u32.to_le_bytes());
    world.add_singleton(NUM_I32, 4, &1i32.to_le_bytes());
    world.execute(executable).0
}

#[test]
fn type_test() {
    // Test executables
    assert_eq!(accepts_executable(AddOne), 2);
    assert_eq!(accepts_executable(ReadBoth), (1, 0));
    accepts_executable(Nothing);

    // Test stateful executables
    assert_eq!(accepts_executable(Stateful.with_state(5)), 5);

    // Test executables behind a store
    assert_eq!(accepts_executable(AddOne.type_erase()), 2);
    let mut world = World::new();
    world.add_singleton(NUM_U32, 4, &3u32.to_le_bytes());
    assert_eq!(TypeErasedExecutable::execute(Stateful.with_state(4), &mut world), 7);

    // Test executables that own what they carry
    let val = String::from("Hello!");
    accepts_executable(Sends(val));
}

#[test]
fn messages_leave_in_the_order_in_which_they_were_sent() {
    let mut world = World::new();
    world.add_msg_handler(HANDLER_A, &[0xA]);
    world.add_msg_handler(HANDLER_B, &[0xB]);
    world.send_msg(HANDLER_A, b"first");
    world.send_msg(HANDLER_B, b"");
    world.send_msg(HANDLER_A, b"third, and longer");
    let msgs = world.apply_msgs();
    assert_eq!(msgs.len(), 3);
    assert_eq!(msgs[0].handler, HANDLER_A);
    assert_eq!(msgs[0].target, Some(vec![0xA]));
    assert_eq!(msgs[0].payload, b"first");
    assert_eq!(msgs[1].handler, HANDLER_B);
    assert_eq!(msgs[1].target, Some(vec![0xB]));
    assert_eq!(msgs[1].payload, b"");
    assert_eq!(msgs[2].handler, HANDLER_A);
    assert_eq!(msgs[2].target, Some(vec![0xA]));
    assert_eq!(msgs[2].payload, b"third, and longer");
    // Nothing is left, and what is sent now waits for the next time.
    assert_eq!(world.apply_msgs().len(), 0);
    world.send_msg(HANDLER_B, b"later");
    let msgs = world.apply_msgs();
    assert_eq!(msgs.len(), 1);
    assert_eq!(msgs.into_iter().next().unwrap().read(), b"later");
}

#[test]
fn a_message_without_a_handler_is_dropped() {
    let mut world = World::new();
    world.add_msg_handler(HANDLER_B, &[1, 2, 3]);
    assert_eq!(world.try_send_msg(HANDLER_A, b"nobody listens"), Ok(()));
    assert_eq!(world.try_send_msg(HANDLER_B, b"somebody does"), Ok(()));
    let msgs = world.apply_msgs();
    assert_eq!(msgs.len(), 2);
    assert_eq!(msgs[0].target, None);
    assert_eq!(msgs[0].payload, b"nobody listens");
    assert_eq!(msgs[1].target, Some(vec![1, 2, 3]));
    assert_eq!(msgs[1].payload, b"somebody does");
}

#[test]
fn a_message_sent_now_comes_first() {
    let mut world = World::new();
    world.add_msg_handler(HANDLER_A, &[1]);
    world.send_msg(HANDLER_A, b"waiting");
    let msgs = world.send_msg_now(HANDLER_A, b"now");
    assert_eq!(msgs.len(), 2);
    assert_eq!(msgs[0].payload, b"now");
    assert_eq!(msgs[1].payload, b"waiting");
    world.send_msg(HANDLER_A, b"waiting");
    let msgs = world.send_msg_now(HANDLER_B, b"now");
    assert_eq!(msgs.len(), 1);
    assert_eq!(msgs[0].payload, b"waiting");
}

#[test]
fn frames_are_read_back() {
    let mut buffer = Vec::new();
    buffer.extend_from_slice(&7u64.to_le_bytes());
    buffer.extend_from_slice(&70u64.to_le_bytes());
    buffer.extend_from_slice(&3u64.to_le_bytes());
    buffer.extend_from_slice(b"abc");
    assert_eq!(HEADER_SIZE, 24);
    assert_eq!(
        read_frame(&buffer, 0),
        Some(FrameLocation { handler: HANDLER_A, start: 24, len: 3 })
    );
    assert_eq!(read_frame(&buffer, 1), None);
    assert_eq!(read_frame(&buffer[..26], 0), None);
    assert_eq!(read_frame(&buffer[..20], 0), None);
    assert_eq!(read_frame(&buffer, 27), None);
    assert_eq!(read_frame(&[], 0), None);
}

#[test]
fn singletons_are_kept_by_type() {
    let mut world = World::with_capacities(1, 2, 3, 4);
    assert_eq!(world.try_get_singleton(NUM_I32), None);
    assert!(world.try_get_singleton_mut(NUM_I32).is_none());
    world.add_singleton(NUM_I32, 4, &5i32.to_le_bytes());
    world.add_singleton(NUM_U32, 4, &6u32.to_le_bytes());
    world.add_singleton(HANDLER_A, 1, &[1]);
    assert_eq!(world.get_singleton(NUM_I32), &5i32.to_le_bytes());
    assert_eq!(world.try_get_singleton(NUM_U32), Some(&6u32.to_le_bytes()[..]));
    world.try_get_singleton_mut(NUM_U32).unwrap()[0] = 9;
    assert_eq!(world.get_singleton(NUM_U32), &9u32.to_le_bytes());
    world.add_singleton(NUM_I32, 4, &7i32.to_le_bytes());
    assert_eq!(world.get_singleton(NUM_I32), &7i32.to_le_bytes());
    assert_eq!(world.singletons.num_entries(), 3);
}

#[derive(Default)]
struct CountingPlugin {
    loads: u8,
}
impl Plugin for CountingPlugin {
    fn load(&mut self, world: &mut World) {
        self.loads += 1;
        world.add_singleton(NUM_U32, 4, &1u32.to_le_bytes());
        world.add_msg_handler(HANDLER_A, &[self.loads]);
    }
}

#[test]
fn a_plugin_is_loaded_once() {
    let mut world = World::default();
    assert!(!world.has_plugin(PubTypeId { val: (55, 5) }));
    assert!(world.add_plugin(PubTypeId { val: (55, 5) }, CountingPlugin::default()));
    assert!(world.has_plugin(PubTypeId { val: (55, 5) }));
    assert_eq!(world.get_singleton(NUM_U32), &1u32.to_le_bytes());
    world.add_singleton(NUM_U32, 4, &2u32.to_le_bytes());
    assert!(!world.add_plugin(PubTypeId { val: (55, 5) }, CountingPlugin::default()));
    assert_eq!(world.get_singleton(NUM_U32), &2u32.to_le_bytes());
    assert_eq!(world.plugins.num_entries(), 1);
}

#[test]
fn states_are_cached_by_key() {
    let mut world = World::new();
    let state = world.get_state(UniqKey::new(3), || vec![1, 2]);
    state[0] = 5;
    assert_eq!(world.get_state(UniqKey::new(3), || vec![]), &[5, 2]);
    let mut uniqs = Uniqs(&mut world);
    assert_eq!(uniqs.get(UniqKey::new(3), 2), &[5, 2]);
    assert_eq!(uniqs.get(UniqKey::new(4), 3), &[0, 0, 0]);
    assert_eq!(uniqs.get_or_insert(UniqKey::new(5), || vec![8]), &[8]);
    assert_eq!(uniqs.get_or_insert(UniqKey::new(5), || vec![9]), &[8]);
}

#[derive(Clone)]
struct SetNum(u32);
impl Mutation for SetNum {
    type Reverse = SetNum;

    fn apply(self, world: &mut World) {
        world.add_singleton(NUM_U32, 4, &self.0.to_le_bytes());
    }

    fn build_reverse(&self, world: &World) -> SetNum {
        SetNum(u32::from_le_bytes(world.get_singleton(NUM_U32).try_into().unwrap()))
    }
}

#[test]
fn mutations_are_applied_in_order() {
    let mut world = World::new();
    world.add_singleton(NUM_U32, 4, &0u32.to_le_bytes());
    let set = MutationSet::new(vec![SetNum(1), SetNum(2), SetNum(3)]);
    assert_eq!(set.len(), 3);
    let reverse = set.build_reverse(&world);
    assert_eq!(reverse.len(), 3);
    assert_eq!(reverse[0].0, 0);
    set.apply(&mut world);
    assert_eq!(world.get_singleton(NUM_U32), &3u32.to_le_bytes());
    ().apply(&mut world);
    assert_eq!(world.execute_immut(ReadBoth2), 3);
}

struct ReadBoth2;
impl Executable for ReadBoth2 {
    type Output = u32;

    fn execute(self, world: &mut World) -> u32 {
        u32::from_le_bytes(world.get_singleton(NUM_U32).try_into().unwrap())
    }
}

#[test]
fn a_store_runs_what_it_holds() {
    let mut world = World::new();
    world.add_singleton(NUM_U32, 4, &3u32.to_le_bytes());
    world.add_singleton(NUM_I32, 4, &1i32.to_le_bytes());
    assert_eq!(AddOne.type_erase().execute(&mut world), 2);
    assert_eq!(Stateful.with_state(4).execute(&mut world), 7);
    assert_eq!(Executable::execute(Stateful.with_state(5), &mut world), 8);
    assert_eq!(TypeErasedExecutable::execute(AddOne.type_erase(), &mut world), 3);
    Sends(String::from("one")).type_erase().execute(&mut world);
    world.execute_immut(Sends(String::from("two")));
    let msgs = world.execute(Nothing).1;
    assert_eq!(msgs.len(), 2);
    assert_eq!(msgs[0].payload, b"one");
    assert_eq!(msgs[1].payload, b"two");
}

#[test]
fn a_plugin_is_told_from_one_that_shares_its_bucket() {
    let mut world = World::new();
    let first = PubTypeId { val: (55, 5) };
    let second = PubTypeId { val: (155, 5) };
    assert!(world.add_plugin(first, CountingPlugin::default()));
    assert!(world.has_plugin(first));
    assert!(!world.has_plugin(second));
    assert!(world.add_plugin(second, CountingPlugin::default()));
    assert!(world.has_plugin(second));
    assert!(!world.add_plugin(second, CountingPlugin::default()));
    assert_eq!(world.plugins.num_entries(), 2);
}

#[test]
fn a_new_world_caches_states_at_once() {
    let mut world = World::default();
    {
        let mut uniqs = Uniqs(&mut world);
        let value = uniqs.get_or_insert(UniqKey::new(9), || 5u32.to_le_bytes().to_vec());
        value[0] += 1;
    }
    let mut uniqs = Uniqs(&mut world);
    let value = uniqs.get_or_insert(UniqKey::new(9), || 100u32.to_le_bytes().to_vec());
    assert_eq!(value, &6u32.to_le_bytes());
}
