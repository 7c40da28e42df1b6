//! The Wayland wire format.

use vstd::prelude::*;

pub mod layout;
pub mod tx;

verus! {

/// The maximum size of a Wayland message, including the header and arguments.
pub const MAX_MESSAGE_SIZE: usize = 4096;

} // verus!
