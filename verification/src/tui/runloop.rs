//! The loop that runs an application frame by frame.

use vstd::prelude::*;

verus! {

pub struct TuiRunloop {
    pub fps: u32,
}

impl TuiRunloop {
    pub fn new(fps: u32) -> (runloop: Self)
        ensures
            runloop.fps == fps,
    {
        Self { fps }
    }

    /// The time from the start of one frame to the start of the next, in
    /// nanoseconds. A runloop needs a frame rate above zero.
    pub fn nanos_between_frames(&self) -> (nanos: u32)
        requires
            self.fps > 0,
        ensures
            nanos == 1_000_000_000int / self.fps as int,
    {
        1_000_000_000 / self.fps
    }
}

impl Default for TuiRunloop {
    fn default() -> (runloop: Self)
        ensures
            runloop.fps == 60,
    {
        Self { fps: 60 }
    }
}

} // verus!
