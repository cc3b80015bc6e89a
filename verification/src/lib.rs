//! A runtime substrate for an application framework: arena-backed containers,
//! type-indexed and key-indexed byte stores, and a byte-framed message queue.

pub mod os;
pub mod utils;
pub mod datatypes;
pub mod world;
pub mod tui;
pub mod ui;
