use scaffolding::ui::wayland::{
    decode_event, wanted, Reaction, SomeEvent, SomeObject, WaylandGlobals, WaylandPlatform,
};
use scaffolding::ui::wire::WireMsgHeader;

fn message(object: u32, opcode: u16, args: &[u8]) -> Vec<u8> {
    let header = WireMsgHeader {
        object,
        opcode,
        len: (8 + args.len()) as u16,
    };
    let mut bytes = header.encode();
    bytes.extend_from_slice(args);
    bytes
}

fn text(value: &str) -> Vec<u8> {
    let mut bytes = ((value.len() + 1) as u32).to_le_bytes().to_vec();
    bytes.extend_from_slice(value.as_bytes());
    bytes.push(0);
    while bytes.len() % 4 != 0 {
        bytes.push(0);
    }
    bytes
}

fn global(name: u32, interface: &str, version: u32) -> Vec<u8> {
    let mut args = name.to_le_bytes().to_vec();
    args.extend_from_slice(&text(interface));
    args.extend_from_slice(&version.to_le_bytes());
    message(2, 0, &args)
}

#[test]
fn interfaces_have_their_names_and_versions() {
    assert_eq!(SomeObject::Display.ffi_name(), "wl_display");
    assert_eq!(SomeObject::Registry.ffi_name(), "wl_registry");
    assert_eq!(SomeObject::Callback.ffi_name(), "wl_callback");
    assert_eq!(SomeObject::Surface.ffi_name(), "wl_surface");
    assert_eq!(SomeObject::Shm.ffi_name(), "wl_shm");
    assert_eq!(SomeObject::Compositor.ffi_name(), "wl_compositor");
    assert_eq!(SomeObject::XdgWmBase.ffi_name(), "xdg_wm_base");
    assert_eq!(SomeObject::XdgSurface.ffi_name(), "xdg_surface");
    assert_eq!(SomeObject::Display.version(), 1);
    assert_eq!(SomeObject::Shm.version(), 1);
    assert_eq!(SomeObject::Surface.version(), 6);
    assert_eq!(SomeObject::Compositor.version(), 6);
    assert_eq!(SomeObject::XdgWmBase.version(), 6);
    assert_eq!(SomeObject::XdgSurface.version(), 6);
}

#[test]
fn a_new_client_asks_for_the_registry() {
    let platform = WaylandPlatform::new();
    assert_eq!(
        platform.objects,
        vec![None, Some(SomeObject::Display), Some(SomeObject::Registry)]
    );
    assert_eq!(
        platform.globals,
        WaylandGlobals {
            display: 1,
            registry: 2,
            compositor: 0,
            xdg_wm_base: 0,
            shm: 0
        }
    );
    assert!(platform.callbacks.is_empty());
    assert_eq!(
        platform.write_buffer.as_slice(),
        &[1, 0, 0, 0, 1, 0, 12, 0, 2, 0, 0, 0]
    );
    assert!(!platform.has_globals());
}

#[test]
fn events_are_read_from_their_bytes() {
    let mut args = 9u32.to_le_bytes().to_vec();
    args.extend_from_slice(&4u32.to_le_bytes());
    args.extend_from_slice(&text("gone"));
    assert_eq!(
        decode_event(SomeObject::Display, &message(1, 0, &args)),
        Some(SomeEvent::Error {
            object_id: 9,
            code: 4,
            message: b"gone".to_vec()
        })
    );
    assert_eq!(
        decode_event(SomeObject::Display, &message(1, 1, &5u32.to_le_bytes())),
        Some(SomeEvent::DeleteId { id: 5 })
    );
    assert_eq!(
        decode_event(SomeObject::Registry, &global(7, "wl_shm", 1)),
        Some(SomeEvent::Global {
            name: 7,
            interface: b"wl_shm".to_vec(),
            version: 1
        })
    );
    assert_eq!(
        decode_event(SomeObject::Registry, &message(2, 1, &7u32.to_le_bytes())),
        Some(SomeEvent::GlobalRemove { name: 7 })
    );
    assert_eq!(
        decode_event(SomeObject::Callback, &message(3, 0, &77u32.to_le_bytes())),
        Some(SomeEvent::Done { callback_data: 77 })
    );
    assert_eq!(
        decode_event(SomeObject::Shm, &message(4, 0, &1u32.to_le_bytes())),
        Some(SomeEvent::Format { format: 1 })
    );
    assert_eq!(
        decode_event(SomeObject::XdgWmBase, &message(5, 0, &31u32.to_le_bytes())),
        Some(SomeEvent::Ping { serial: 31 })
    );
}

#[test]
fn unknown_and_short_events_are_not_read() {
    assert_eq!(decode_event(SomeObject::Display, &message(1, 2, &[0; 4])), None);
    assert_eq!(decode_event(SomeObject::Callback, &message(3, 1, &[0; 4])), None);
    assert_eq!(decode_event(SomeObject::Surface, &message(6, 0, &[0; 4])), None);
    assert_eq!(decode_event(SomeObject::Compositor, &message(6, 0, &[0; 4])), None);
    assert_eq!(decode_event(SomeObject::XdgSurface, &message(6, 0, &[0; 4])), None);
    assert_eq!(decode_event(SomeObject::Callback, &message(3, 0, &[0; 3])), None);
    assert_eq!(decode_event(SomeObject::Callback, &[1, 0, 0]), None);
    let mut cut = global(7, "wl_shm", 1);
    cut.truncate(cut.len() - 1);
    assert_eq!(decode_event(SomeObject::Registry, &cut), None);
}

#[test]
fn the_client_wants_three_globals() {
    assert_eq!(wanted(b"xdg_wm_base"), Some(SomeObject::XdgWmBase));
    assert_eq!(wanted(b"wl_shm"), Some(SomeObject::Shm));
    assert_eq!(wanted(b"wl_compositor"), Some(SomeObject::Compositor));
    assert_eq!(wanted(b"wl_seat"), None);
    assert_eq!(wanted(b"wl_sh"), None);
    assert_eq!(wanted(b""), None);
}

#[test]
fn an_offered_global_is_bound() {
    let mut platform = WaylandPlatform::new();
    let reaction = platform.process_next_event(&global(7, "wl_shm", 1));
    assert_eq!(
        reaction,
        Reaction::Bound {
            interface: SomeObject::Shm,
            id: 3
        }
    );
    assert_eq!(platform.globals.shm, 3);
    assert_eq!(platform.objects[3], Some(SomeObject::Shm));
    let mut expected = vec![2, 0, 0, 0, 0, 0, 33, 0];
    expected.extend_from_slice(&7u32.to_le_bytes());
    expected.extend_from_slice(&text("wl_shm"));
    expected.extend_from_slice(&1u32.to_le_bytes());
    expected.extend_from_slice(&3u32.to_le_bytes());
    assert_eq!(platform.write_buffer.as_slice(), expected.as_slice());

    let reaction = platform.process_next_event(&global(8, "xdg_wm_base", 6));
    assert_eq!(
        reaction,
        Reaction::Bound {
            interface: SomeObject::XdgWmBase,
            id: 4
        }
    );
    assert_eq!(platform.globals.xdg_wm_base, 4);
    assert!(platform.has_globals());

    let reaction = platform.process_next_event(&global(9, "wl_compositor", 6));
    assert_eq!(
        reaction,
        Reaction::Bound {
            interface: SomeObject::Compositor,
            id: 5
        }
    );
    assert_eq!(platform.globals.compositor, 5);
    assert_eq!(platform.objects.len(), 6);
}

#[test]
fn another_version_is_not_bound() {
    let mut platform = WaylandPlatform::new();
    let before = platform.write_buffer.as_slice().to_vec();
    let reaction = platform.process_next_event(&global(9, "wl_compositor", 5));
    assert_eq!(
        reaction,
        Reaction::VersionMismatch {
            interface: SomeObject::Compositor,
            version: 5
        }
    );
    assert_eq!(platform.globals.compositor, 0);
    assert_eq!(platform.objects.len(), 3);
    assert_eq!(platform.write_buffer.as_slice(), before.as_slice());
    assert_eq!(platform.bind_global(SomeObject::Shm, 1, 2), None);
    assert_eq!(platform.bind_global(SomeObject::Shm, 1, 1), Some(3));
}

#[test]
fn an_unwanted_global_changes_nothing() {
    let mut platform = WaylandPlatform::new();
    assert_eq!(
        platform.process_next_event(&global(9, "wl_seat", 8)),
        Reaction::Nothing
    );
    assert_eq!(platform.objects.len(), 3);
    assert_eq!(
        platform.process_next_event(&message(2, 1, &9u32.to_le_bytes())),
        Reaction::Nothing
    );
}

#[test]
fn a_callback_is_done_once() {
    let mut platform = WaylandPlatform::new();
    let id = platform.sync();
    assert_eq!(id, 3);
    assert_eq!(platform.objects[3], Some(SomeObject::Callback));
    assert_eq!(platform.callbacks, vec![3]);
    assert_eq!(
        platform.write_buffer.as_slice(),
        &[1, 0, 0, 0, 0, 0, 12, 0, 3, 0, 0, 0]
    );
    let done = message(3, 0, &55u32.to_le_bytes());
    assert_eq!(
        platform.process_next_event(&done),
        Reaction::CallbackDone {
            id: 3,
            callback_data: 55
        }
    );
    assert!(platform.callbacks.is_empty());
    assert_eq!(
        platform.process_next_event(&done),
        Reaction::UnknownCallback { id: 3 }
    );
}

#[test]
fn the_oldest_of_equal_callbacks_goes_first() {
    let mut platform = WaylandPlatform::new();
    let first = platform.create_callback();
    let second = platform.create_callback();
    assert_eq!((first, second), (3, 4));
    assert_eq!(platform.callbacks, vec![3, 4]);
    assert_eq!(
        platform.process_next_event(&message(4, 0, &1u32.to_le_bytes())),
        Reaction::CallbackDone {
            id: 4,
            callback_data: 1
        }
    );
    assert_eq!(platform.callbacks, vec![3]);
}

#[test]
fn a_deleted_id_is_given_out_again() {
    let mut platform = WaylandPlatform::new();
    assert_eq!(platform.create_callback(), 3);
    assert_eq!(platform.create_callback(), 4);
    assert_eq!(
        platform.process_next_event(&message(1, 1, &3u32.to_le_bytes())),
        Reaction::Nothing
    );
    assert_eq!(platform.objects[3], None);
    assert_eq!(platform.new_id(), 3);
    assert_eq!(platform.new_id(), 3);
    assert_eq!(platform.create_callback(), 3);
    assert_eq!(platform.new_id(), 5);
    assert_eq!(platform.objects.len(), 6);
    assert_eq!(
        platform.process_next_event(&message(1, 1, &40u32.to_le_bytes())),
        Reaction::InvalidObject { object: 40 }
    );
}

#[test]
fn messages_for_no_object_are_reported() {
    let mut platform = WaylandPlatform::new();
    assert_eq!(
        platform.process_next_event(&message(0, 0, &[0; 4])),
        Reaction::InvalidObject { object: 0 }
    );
    assert_eq!(
        platform.process_next_event(&message(3, 0, &[0; 4])),
        Reaction::InvalidObject { object: 3 }
    );
    assert_eq!(platform.process_next_event(&[1, 0, 0, 0]), Reaction::Malformed);
    assert_eq!(
        platform.process_next_event(&message(1, 9, &[0; 4])),
        Reaction::UnknownEvent { object: 1 }
    );
}

#[test]
fn an_error_of_the_display_is_fatal() {
    let mut platform = WaylandPlatform::new();
    let mut args = 2u32.to_le_bytes().to_vec();
    args.extend_from_slice(&1u32.to_le_bytes());
    args.extend_from_slice(&text("bad"));
    assert_eq!(
        platform.process_next_event(&message(1, 0, &args)),
        Reaction::Fatal {
            object_id: 2,
            code: 1,
            message: b"bad".to_vec()
        }
    );
}

#[test]
fn a_ping_is_left_alone() {
    let mut platform = WaylandPlatform::new();
    platform.process_next_event(&global(8, "xdg_wm_base", 6));
    let before = platform.write_buffer.as_slice().to_vec();
    assert_eq!(
        platform.process_next_event(&message(3, 0, &5u32.to_le_bytes())),
        Reaction::Unhandled { object: 3 }
    );
    assert_eq!(platform.write_buffer.as_slice(), before.as_slice());
}

#[test]
fn requests_are_written_with_their_arguments() {
    let mut platform = WaylandPlatform::new();
    platform.process_next_event(&global(8, "xdg_wm_base", 6));
    platform.process_next_event(&global(9, "wl_compositor", 6));
    platform.create_surface(5);
    assert_eq!(
        platform.write_buffer.as_slice(),
        &[4, 0, 0, 0, 0, 0, 12, 0, 5, 0, 0, 0]
    );
    platform.get_xdg_surface(6, 5);
    assert_eq!(
        platform.write_buffer.as_slice(),
        &[3, 0, 0, 0, 2, 0, 16, 0, 6, 0, 0, 0, 5, 0, 0, 0]
    );
    platform.pong(258);
    assert_eq!(
        platform.write_buffer.as_slice(),
        &[3, 0, 0, 0, 3, 0, 12, 0, 2, 1, 0, 0]
    );
    platform.sync_display(7);
    assert_eq!(
        platform.write_buffer.as_slice(),
        &[1, 0, 0, 0, 0, 0, 12, 0, 7, 0, 0, 0]
    );
    platform.bind(1, SomeObject::XdgWmBase, 9);
    let mut expected = vec![2, 0, 0, 0, 0, 0, 37, 0];
    expected.extend_from_slice(&1u32.to_le_bytes());
    expected.extend_from_slice(&text("xdg_wm_base"));
    expected.extend_from_slice(&6u32.to_le_bytes());
    expected.extend_from_slice(&9u32.to_le_bytes());
    assert_eq!(platform.write_buffer.as_slice(), expected.as_slice());
}
