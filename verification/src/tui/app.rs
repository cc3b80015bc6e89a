//! What an application reaches the terminal user interface through.

use crate::datatypes::arenavec::Error;
use crate::datatypes::typemap::{max_allocation, PubTypeId};
use crate::tui::msg::TuiMsg;
use crate::tui::shapes::Shape;
use crate::tui::terminal::Terminal;
use crate::utils::align_up;
use crate::world::{frame_size, Frame, Plugin, World};
use vstd::prelude::*;

verus! {

/// The tag of the handler of the messages of the terminal user interface.
pub open spec fn spec_tui_handler() -> PubTypeId {
    PubTypeId { val: (0x5455_495f_4d53_4721, 0x7475_695f_6d73_6721) }
}

/// The tag of the handler of the messages of the terminal user interface.
#[verifier::when_used_as_spec(spec_tui_handler)]
pub fn tui_handler() -> (tag: PubTypeId)
    ensures
        tag == spec_tui_handler(),
{
    PubTypeId { val: (0x5455_495f_4d53_4721, 0x7475_695f_6d73_6721) }
}

/// Sets a world up for the terminal user interface: it registers the
/// handler of its messages.
#[derive(Default)]
pub struct TuiPlugin {}

/// Whether the store of the handlers of `world` takes the handler of the
/// messages of the terminal user interface.
pub open spec fn takes_tui_handler(world: World) -> bool {
    &&& align_up(world.spec_msg_handlers().spec_used_storage(), 8) < max_allocation()
    &&& world.spec_msg_handlers().spec_num_entries() < max_allocation()
}

impl Plugin for TuiPlugin {
    /// Registers the handler of the messages of the terminal user
    /// interface under its tag, with no bytes of its own, and leaves the
    /// rest of the world as it was. A world whose store of handlers has
    /// reached the largest size that a store can have stays as it was.
    fn load(&mut self, world: &mut World)
        ensures
            takes_tui_handler(*old(world)) ==> old(world).spec_msg_handlers().inserted(
                final(world).spec_msg_handlers(),
                spec_tui_handler(),
                8,
                Seq::<u8>::empty(),
            ),
            !takes_tui_handler(*old(world)) ==> final(world).spec_msg_handlers() == old(
                world,
            ).spec_msg_handlers(),
            final(world).spec_plugins() == old(world).spec_plugins(),
            final(world).spec_states() == old(world).spec_states(),
            final(world).spec_singletons() == old(world).spec_singletons(),
            final(world).pending() == old(world).pending(),
    {
        let nothing: [u8; 0] = [];
        proof {
            assert(nothing@ =~= Seq::<u8>::empty());
        }
        let _ = world.try_add_msg_handler(tui_handler(), nothing.as_slice());
    }
}

/// The world of an application, as the terminal user interface sees it.
pub struct App<'a>(pub &'a mut World);

impl App<'_> {
    /// Draws `drawable` in `terminal`, or reports that the output buffer
    /// cannot take it and draws nothing of it.
    pub fn draw<D: Shape>(&self, terminal: &mut Terminal, drawable: D) -> (r: Result<(), Error>)
        requires
            old(terminal).wf(),
            drawable.drawable(),
        ensures
            final(terminal).wf(),
            old(terminal).wrote(*final(terminal), r, drawable.spec_bytes()),
    {
        terminal.draw(drawable)
    }

    /// Asks the runloop to exit: sends the message that says so, or
    /// reports that the message buffer cannot take it.
    pub fn exit(&mut self) -> (r: Result<(), Error>)
        requires
            old(self).0.wf(),
        ensures
            *final(final(self).0) == *final(old(self).0),
            final(self).0.wf(),
            r is Ok <==> old(self).0.takes(1),
            r is Ok ==> final(self).0.pending() == old(self).0.pending().push(
                Frame { handler: spec_tui_handler(), payload: seq![0u8] },
            ),
            r is Err ==> final(self).0.pending() == old(self).0.pending(),
    {
        let payload: [u8; 1] = [TuiMsg::ExitRunloop.to_byte()];
        proof {
            assert(payload@ =~= seq![0u8]);
        }
        self.0.try_send_msg(tui_handler(), payload.as_slice())
    }
}

} // verus!
