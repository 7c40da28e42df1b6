//! Listening sockets and connections.

pub mod acceptor;
pub mod binding;
pub mod connection;
pub mod os;
pub mod path;
pub mod range;
