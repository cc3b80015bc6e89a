//! The ground that a graphical user interface stands on: the wire format
//! in which a client talks to a Wayland compositor, and the client itself
//! as a state machine without a socket.

pub mod wayland;
pub mod wire;
