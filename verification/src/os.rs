//! What the crate needs to know of the operating system that it runs on.
//!
//! The containers of this crate account for memory as an operating system
//! hands it out: whole pages of a reservation of address space. The calls
//! that reserve and commit memory are made by the program around the
//! library.

use crate::utils::{align, align_up};
use vstd::prelude::*;

verus! {

/// A list of operating systems supported by the crate.
#[derive(Clone, Copy, Debug, PartialEq, Eq, Structural)]
pub enum OsType {
    Linux,
    MacOS,
    Windows,
}

/// Align a number to a page size.
pub fn page_align(num: usize, page_size: usize) -> (aligned: usize)
    requires
        align_up(num as int, page_size as int) <= usize::MAX,
    ensures
        aligned == align_up(num as int, page_size as int),
{
    align(num, page_size)
}

} // verus!
