# wayland_io

The parts of a Wayland endpoint that decide and compute, verified with Verus:

- `wire`: messages are encoded into a buffer of bytes and file descriptors. The
  contracts say byte for byte what is written, and the proofs in `wire::layout`
  show that a receiver finds the same messages in the stream.
- `socket::connection`: all bytes and file descriptors of a buffer are sent in
  messages that the operating system accepts, and what arrives is collected.
- `socket::acceptor`, `socket::binding`, `socket::range`: a listening socket is
  bound under a lock on a file beside it, by its name or as the first free one of
  several.
- `socket::path`: the names and paths of these files.
- `socket::os`: the errors of the operating system.

The library performs no input or output. An operation that needs some is a value
that says which call comes next and is told how the call went. `app/` makes these
calls, on tokio and rustix.
