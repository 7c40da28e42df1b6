//! The parts of a Wayland endpoint that decide and compute: the encoding of
//! messages into the wire format, the flushing of bytes and file descriptors
//! over a stream socket, and the binding of a listening socket that is guarded
//! by a lock file.
//!
//! Nothing here performs input or output. Where an operation needs some, it is
//! a value that says which call comes next, and that is told how the call went.

pub mod socket;
pub mod wire;
