//! Listening sockets.

use crate::socket::binding::{Binding, Stage, Target};
use crate::socket::path;
use crate::socket::range::RangeBinding;
use vstd::prelude::*;

verus! {

/// Socket errors.
#[derive(Debug)]
pub enum AcceptorError {
    /// No available socket candidates.
    NoAvailableSocket,
    /// XDG_RUNTIME_DIR is not set or invalid.
    RuntimeDirInvalid,
    /// The socket is already in use.
    SocketInUse,
    /// I/O error.
    Io(std::io::Error),
}

impl From<std::io::Error> for AcceptorError {
    fn from(error: std::io::Error) -> (converted: Self)
        ensures
            converted == AcceptorError::Io(error),
    {
        AcceptorError::Io(error)
    }
}

impl vstd::std_specs::convert::FromSpecImpl<std::io::Error> for AcceptorError {
    open spec fn obeys_from_spec() -> bool {
        true
    }

    open spec fn from_spec(error: std::io::Error) -> Self {
        AcceptorError::Io(error)
    }
}

/// Wayland connection acceptor.
///
/// `Listener` is the type of the listening socket, `Lock` that of the open lock
/// file, which is kept as a guard.
#[derive(Debug)]
pub struct Acceptor<Listener, Lock> {
    /// The underlying listener.
    listener: Listener,
    /// Name of the bound socket.
    socket_name: String,
    /// Path to the bound socket.
    bind_path: Vec<u8>,
    /// Path to the lock file.
    lock_path: Vec<u8>,
    /// Lock file, held as guard.
    lock: Lock,
}

/// What an acceptor is made of.
pub struct AcceptorParts<Listener, Lock> {
    /// The underlying listener.
    pub listener: Listener,
    /// Which socket is bound.
    pub target: Target,
    /// The lock file.
    pub lock: Lock,
}

impl<Listener, Lock> View for Acceptor<Listener, Lock> {
    type V = AcceptorParts<Listener, Lock>;

    closed spec fn view(&self) -> AcceptorParts<Listener, Lock> {
        AcceptorParts {
            listener: self.listener,
            target: Target {
                socket_name: self.socket_name@,
                bind_path: self.bind_path@,
                lock_path: self.lock_path@,
            },
            lock: self.lock,
        }
    }
}

/// The directory for sockets that a value of XDG_RUNTIME_DIR names, if it names
/// one. The value is `None` where the variable is not set.
pub open spec fn runtime_dir(variable: Option<Seq<char>>) -> Option<Seq<u8>> {
    match variable {
        Some(value) if path::absolute(vstd::utf8::encode_utf8(value)) => Some(
            vstd::utf8::encode_utf8(value),
        ),
        _ => None,
    }
}

/// The characters of a variable's value.
pub open spec fn variable(value: Option<&str>) -> Option<Seq<char>> {
    match value {
        Some(value) => Some(value@),
        None => None,
    }
}

impl<Listener, Lock> Acceptor<Listener, Lock> {
    /// Attempts to bind to a socket from the range `wayland-0` to `wayland-32`.
    ///
    /// The socket will be created under `XDG_RUNTIME_DIR`, whose value is given.
    pub fn bind_auto(runtime_dir: Option<&str>) -> (range: Result<
        (RangeBinding, std::ops::Range<usize>),
        AcceptorError,
    >)
        ensures
            match (range, self::runtime_dir(variable(runtime_dir))) {
                (Ok((binding, indices)), Some(directory)) => {
                    &&& binding.directory() == directory
                    &&& binding.basename() == "wayland"@
                    &&& indices.start == 0
                    &&& indices.end == 33
                },
                (Err(AcceptorError::RuntimeDirInvalid), None) => true,
                _ => false,
            },
    {
        match Self::bind_range(runtime_dir, "wayland") {
            Ok(binding) => Ok((binding, 0..33)),
            Err(error) => Err(error),
        }
    }

    /// Attempts to bind to a socket from a range of candidates.
    ///
    /// Candidate socket names are constructed by appending a numeric index
    /// to the given basename (e.g. `basename-0`, `basename-1`, ...).
    ///
    /// The socket will be created under `XDG_RUNTIME_DIR`, whose value is given.
    pub fn bind_range(runtime_dir: Option<&str>, basename: &str) -> (range: Result<
        RangeBinding,
        AcceptorError,
    >)
        ensures
            match (range, self::runtime_dir(variable(runtime_dir))) {
                (Ok(binding), Some(directory)) => {
                    &&& binding.directory() == directory
                    &&& binding.basename() == basename@
                },
                (Err(AcceptorError::RuntimeDirInvalid), None) => true,
                _ => false,
            },
    {
        match Self::xdg_runtime_dir(runtime_dir) {
            Ok(directory) => Ok(RangeBinding::start(directory, basename.to_owned())),
            Err(error) => Err(error),
        }
    }

    /// Binds to a socket with the given name.
    ///
    /// The socket will be created under `XDG_RUNTIME_DIR`, whose value is given.
    pub fn bind_name(runtime_dir: Option<&str>, socket_name: &str) -> (binding: Result<
        Binding<Listener, Lock>,
        AcceptorError,
    >)
        ensures
            match (binding, self::runtime_dir(variable(runtime_dir))) {
                (Ok(binding), Some(directory)) => {
                    &&& binding.stage() == Stage::<Listener, Lock>::Open
                    &&& binding.target() == Target::within(directory, socket_name@)
                },
                (Err(AcceptorError::RuntimeDirInvalid), None) => true,
                _ => false,
            },
    {
        match Self::xdg_runtime_dir(runtime_dir) {
            Ok(directory) => Ok(Self::bind(directory.as_slice(), socket_name)),
            Err(error) => Err(error),
        }
    }

    /// Binds to a socket with the given name in the given directory.
    pub fn bind(directory: &[u8], socket_name: &str) -> (binding: Binding<Listener, Lock>)
        ensures
            binding.stage() == Stage::<Listener, Lock>::Open,
            binding.target() == Target::within(directory@, socket_name@),
    {
        let (bind_path, lock_path) = path::build_paths(directory, socket_name);
        Binding::start(socket_name.to_owned(), bind_path, lock_path)
    }

    /// An acceptor on a socket that was bound.
    pub(crate) fn bound(
        listener: Listener,
        socket_name: String,
        bind_path: Vec<u8>,
        lock_path: Vec<u8>,
        lock: Lock,
    ) -> (acceptor: Self)
        ensures
            acceptor@ == (AcceptorParts {
                listener,
                target: Target {
                    socket_name: socket_name@,
                    bind_path: bind_path@,
                    lock_path: lock_path@,
                },
                lock,
            }),
    {
        Acceptor { listener, socket_name, bind_path, lock_path, lock }
    }

    /// Returns the name of the bound socket.
    pub fn socket_name(&self) -> (socket_name: &str)
        ensures
            socket_name@ == self@.target.socket_name,
    {
        self.socket_name.as_str()
    }

    /// The underlying listener.
    pub fn listener(&self) -> (listener: &Listener)
        ensures
            *listener == self@.listener,
    {
        &self.listener
    }

    /// The path to the bound socket.
    pub fn bind_path(&self) -> (bind_path: &[u8])
        ensures
            bind_path@ == self@.target.bind_path,
    {
        self.bind_path.as_slice()
    }

    /// The path to the lock file.
    pub fn lock_path(&self) -> (lock_path: &[u8])
        ensures
            lock_path@ == self@.target.lock_path,
    {
        self.lock_path.as_slice()
    }

    /// The directory for sockets that a value of XDG_RUNTIME_DIR names. The value
    /// is `None` where the variable is not set or is not text.
    pub fn xdg_runtime_dir(value: Option<&str>) -> (directory: Result<Vec<u8>, AcceptorError>)
        ensures
            match (directory, runtime_dir(variable(value))) {
                (Ok(directory), Some(expected)) => directory@ == expected,
                (Err(AcceptorError::RuntimeDirInvalid), None) => true,
                _ => false,
            },
    {
        match value {
            None => Err(AcceptorError::RuntimeDirInvalid),
            Some(value) => {
                let bytes = value.as_bytes();
                if bytes.len() == 0 || bytes[0] != path::SEPARATOR {
                    return Err(AcceptorError::RuntimeDirInvalid);
                }
                let mut directory: Vec<u8> = Vec::new();
                directory.extend_from_slice(bytes);
                assert(directory@ =~= bytes@);
                Ok(directory)
            },
        }
    }
}

/// A variable that is set has the characters of its value, and one that is not set
/// has none.
pub proof fn variable_has_its_characters(value: &str)
    ensures
        variable(Some(value)) == Some(value@),
        variable(None) is None,
{
}

/// A variable names a directory just where its value starts with a slash, and that
/// directory is the value, as it is.
pub proof fn runtime_dir_is_absolute_value(value: Seq<char>)
    ensures
        runtime_dir(None) is None,
        runtime_dir(Some(value)) is Some <==> value.len() > 0 && value[0] == '/',
        runtime_dir(Some(value)) matches Some(directory) ==> directory
            == vstd::utf8::encode_utf8(value),
{
    let bytes = vstd::utf8::encode_utf8(value);
    if value.len() > 0 {
        let first = value[0];
        let scalar = first as u32;
        vstd::utf8::char_is_scalar(first);
        vstd::utf8::char_u32_cast(first, scalar);
        assert(scalar <= 0x7f ==> (scalar & 0x7f) as u8 == scalar) by (bit_vector);
        assert((0xc0u8 | ((scalar >> 6) & 0x1f) as u8) >= 0xc0) by (bit_vector);
        assert((0xe0u8 | ((scalar >> 12) & 0x0f) as u8) >= 0xc0) by (bit_vector);
        assert((0xf0u8 | ((scalar >> 18) & 0x7) as u8) >= 0xc0) by (bit_vector);
        assert(bytes[0] == vstd::utf8::encode_scalar(scalar)[0]);
    }
}

/// An I/O error is kept as it is.
pub proof fn io_error_is_kept(error: std::io::Error)
    ensures
        <AcceptorError as vstd::std_specs::convert::FromSpec<std::io::Error>>::from_spec(error)
            == AcceptorError::Io(error),
{
}

} // verus!
