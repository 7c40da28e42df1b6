//! Binding of a socket that is guarded by a lock file.

use crate::socket::acceptor::{Acceptor, AcceptorError, AcceptorParts};
use crate::socket::os::{ErrorKind, IoFailure, LockRefusal};
use crate::socket::path;
use vstd::prelude::*;

verus! {

/// The access mode of a lock file: its owner may read and write it.
pub const LOCK_FILE_MODE: u32 = 0o600;

/// What tells a file from any other: its device and its inode.
#[derive(Debug, Clone, Copy, PartialEq, Eq, Structural)]
pub struct FileId {
    /// The device that holds the file.
    pub dev: u64,
    /// The inode of the file on that device.
    pub ino: u64,
}

/// Which socket is bound.
#[verifier::ext_equal]
pub struct Target {
    /// Name of the socket.
    pub socket_name: Seq<char>,
    /// Path to the socket.
    pub bind_path: Seq<u8>,
    /// Path to the lock file.
    pub lock_path: Seq<u8>,
}

impl Target {
    /// The socket with the given name in the given directory.
    pub open spec fn within(directory: Seq<u8>, socket_name: Seq<char>) -> Self {
        let name = vstd::utf8::encode_utf8(socket_name);
        Target {
            socket_name,
            bind_path: path::joined(directory, name),
            lock_path: path::joined(directory, path::lock_name(name)),
        }
    }
}

/// How far the binding of a socket has come.
#[derive(Debug)]
pub enum Stage<Listener, Lock> {
    /// The lock file is to be opened.
    Open,
    /// The open lock file is to be locked.
    Take {
        /// The lock file.
        lock: Lock,
    },
    /// The locked file is to be identified.
    Identify {
        /// The lock file.
        lock: Lock,
    },
    /// The locked file is to be compared to the file at the lock path.
    Compare {
        /// The lock file.
        lock: Lock,
        /// What file was locked.
        id: FileId,
    },
    /// A stale socket is to be removed.
    Clean {
        /// The lock file.
        lock: Lock,
    },
    /// The socket is to be bound and listened on.
    Listen {
        /// The lock file.
        lock: Lock,
    },
    /// The socket is bound.
    Bound {
        /// The listening socket.
        listener: Listener,
        /// The lock file.
        lock: Lock,
    },
    /// The attempt has failed.
    Failed {
        /// The reason.
        error: AcceptorError,
    },
}

/// The outcome of a call to the operating system.
#[derive(Debug)]
pub enum Event<Listener, Lock> {
    /// The lock file was opened.
    Opened(Result<Lock, std::io::Error>),
    /// An exclusive lock on the open file was asked for, without waiting.
    Taken(Result<(), LockRefusal>),
    /// The metadata of the open lock file were read.
    Identified(Result<FileId, std::io::Error>),
    /// The metadata of the file at the lock path were read.
    Found(Result<FileId, IoFailure>),
    /// The file at the bind path was removed.
    Removed(Result<(), IoFailure>),
    /// The socket was bound at the bind path.
    Listening(Result<Listener, std::io::Error>),
}

/// A call to the operating system that a binding waits for.
#[derive(Debug, Clone, Copy, PartialEq, Eq, Structural)]
pub enum Action {
    /// Open the file at the lock path for writing. It is created where there is
    /// none, with the mode `LOCK_FILE_MODE`, and truncated.
    OpenLock,
    /// Take an exclusive lock on the open lock file, without waiting.
    TakeLock,
    /// Read the metadata of the open lock file.
    IdentifyLock,
    /// Read the metadata of the file at the lock path.
    FindLock,
    /// Remove the file at the bind path.
    RemoveSocket,
    /// Bind a socket at the bind path, and listen.
    Listen,
    /// Nothing more is to be done.
    Finish,
}

impl<Listener, Lock> Stage<Listener, Lock> {
    /// The call that comes next.
    pub open spec fn action(self) -> Action {
        match self {
            Stage::Open => Action::OpenLock,
            Stage::Take { .. } => Action::TakeLock,
            Stage::Identify { .. } => Action::IdentifyLock,
            Stage::Compare { .. } => Action::FindLock,
            Stage::Clean { .. } => Action::RemoveSocket,
            Stage::Listen { .. } => Action::Listen,
            Stage::Bound { .. } | Stage::Failed { .. } => Action::Finish,
        }
    }

    /// The stage after a call. Only the outcome of the call that comes next has
    /// a meaning; any other leaves the stage as it is.
    pub open spec fn after(self, event: Event<Listener, Lock>) -> Self {
        match (self, event) {
            (Stage::Open, Event::Opened(Ok(lock))) => Stage::Take { lock },
            (Stage::Open, Event::Opened(Err(error))) => Stage::failed(error),
            (Stage::Take { lock }, Event::Taken(Ok(()))) => Stage::Identify { lock },
            (Stage::Take { lock }, Event::Taken(Err(refusal))) => if refusal.held {
                Stage::Failed { error: AcceptorError::SocketInUse }
            } else {
                Stage::failed(refusal.error)
            },
            (Stage::Identify { lock }, Event::Identified(Ok(id))) => Stage::Compare { lock, id },
            (Stage::Identify { lock }, Event::Identified(Err(error))) => Stage::failed(error),
            (Stage::Compare { lock, id }, Event::Found(Ok(found))) => if found == id {
                Stage::Clean { lock }
            } else {
                Stage::Open
            },
            (Stage::Compare { lock, id }, Event::Found(Err(failure))) => if failure.kind
                == ErrorKind::NotFound {
                Stage::Open
            } else {
                Stage::failed(failure.error)
            },
            (Stage::Clean { lock }, Event::Removed(Ok(()))) => Stage::Listen { lock },
            (Stage::Clean { lock }, Event::Removed(Err(failure))) => if failure.kind
                == ErrorKind::NotFound {
                Stage::Listen { lock }
            } else {
                Stage::failed(failure.error)
            },
            (Stage::Listen { lock }, Event::Listening(Ok(listener))) => Stage::Bound {
                listener,
                lock,
            },
            (Stage::Listen { lock }, Event::Listening(Err(error))) => Stage::failed(error),
            _ => self,
        }
    }

    /// A failure for an I/O error.
    pub open spec fn failed(error: std::io::Error) -> Self {
        Stage::Failed { error: AcceptorError::Io(error) }
    }

    /// The lock file that is open at this stage.
    pub open spec fn lock(self) -> Option<Lock> {
        match self {
            Stage::Take { lock } => Some(lock),
            Stage::Identify { lock } => Some(lock),
            Stage::Compare { lock, .. } => Some(lock),
            Stage::Clean { lock } => Some(lock),
            Stage::Listen { lock } => Some(lock),
            Stage::Bound { lock, .. } => Some(lock),
            Stage::Open | Stage::Failed { .. } => None,
        }
    }
}

/// An attempt to bind a socket.
#[derive(Debug)]
pub struct Binding<Listener, Lock> {
    socket_name: String,
    bind_path: Vec<u8>,
    lock_path: Vec<u8>,
    stage: Stage<Listener, Lock>,
}

impl<Listener, Lock> Binding<Listener, Lock> {
    /// Which socket is bound.
    pub closed spec fn target(&self) -> Target {
        Target {
            socket_name: self.socket_name@,
            bind_path: self.bind_path@,
            lock_path: self.lock_path@,
        }
    }

    /// How far the attempt has come.
    pub closed spec fn stage(&self) -> Stage<Listener, Lock> {
        self.stage
    }

    /// The start of an attempt.
    pub(crate) fn start(socket_name: String, bind_path: Vec<u8>, lock_path: Vec<u8>) -> (binding:
        Self)
        ensures
            binding.stage() == Stage::<Listener, Lock>::Open,
            binding.target() == (Target {
                socket_name: socket_name@,
                bind_path: bind_path@,
                lock_path: lock_path@,
            }),
    {
        Binding { socket_name, bind_path, lock_path, stage: Stage::Open }
    }

    /// The path to the socket.
    pub fn bind_path(&self) -> (bind_path: &[u8])
        ensures
            bind_path@ == self.target().bind_path,
    {
        self.bind_path.as_slice()
    }

    /// The path to the lock file.
    pub fn lock_path(&self) -> (lock_path: &[u8])
        ensures
            lock_path@ == self.target().lock_path,
    {
        self.lock_path.as_slice()
    }

    /// The lock file, where it is open.
    pub fn lock(&self) -> (lock: Option<&Lock>)
        ensures
            match lock {
                Some(lock) => self.stage().lock() == Some(*lock),
                None => self.stage().lock() is None,
            },
    {
        match &self.stage {
            Stage::Take { lock } => Some(lock),
            Stage::Identify { lock } => Some(lock),
            Stage::Compare { lock, .. } => Some(lock),
            Stage::Clean { lock } => Some(lock),
            Stage::Listen { lock } => Some(lock),
            Stage::Bound { lock, .. } => Some(lock),
            Stage::Open | Stage::Failed { .. } => None,
        }
    }

    /// The call that comes next.
    pub fn action(&self) -> (action: Action)
        ensures
            action == self.stage().action(),
    {
        match &self.stage {
            Stage::Open => Action::OpenLock,
            Stage::Take { .. } => Action::TakeLock,
            Stage::Identify { .. } => Action::IdentifyLock,
            Stage::Compare { .. } => Action::FindLock,
            Stage::Clean { .. } => Action::RemoveSocket,
            Stage::Listen { .. } => Action::Listen,
            Stage::Bound { .. } | Stage::Failed { .. } => Action::Finish,
        }
    }

    /// Takes note of the outcome of a call.
    pub fn step(self, event: Event<Listener, Lock>) -> (next: Self)
        ensures
            next.stage() == self.stage().after(event),
            next.target() == self.target(),
    {
        let Binding { socket_name, bind_path, lock_path, stage } = self;
        let stage = match (stage, event) {
            // The lock file is open.
            (Stage::Open, Event::Opened(Ok(lock))) => Stage::Take { lock },
            (Stage::Open, Event::Opened(Err(error))) => Self::fail(error),
            // Lock acquired successfully, proceed.
            (Stage::Take { lock }, Event::Taken(Ok(()))) => Stage::Identify { lock },
            (Stage::Take { .. }, Event::Taken(Err(refusal))) => if refusal.held {
                // Lock is currently held by another process.
                Stage::Failed { error: AcceptorError::SocketInUse }
            } else {
                Self::fail(refusal.error)
            },
            (Stage::Identify { lock }, Event::Identified(Ok(id))) => Stage::Compare { lock, id },
            (Stage::Identify { .. }, Event::Identified(Err(error))) => Self::fail(error),
            // Another process might unlink the file right between opening and locking it.
            // The lock would then be on a deleted file, while another process locks a
            // newly created one at the same path. So the device and the inode must match.
            (Stage::Compare { lock, id }, Event::Found(Ok(found))) => if found == id {
                Stage::Clean { lock }
            } else {
                // The file was replaced, retry.
                Stage::Open
            },
            (Stage::Compare { .. }, Event::Found(Err(failure))) => if failure.kind
                == ErrorKind::NotFound {
                // The file was removed, retry.
                Stage::Open
            } else {
                Self::fail(failure.error)
            },
            // The exclusive lock is held, so it is safe to remove a socket that a
            // crashed run has left.
            (Stage::Clean { lock }, Event::Removed(Ok(()))) => Stage::Listen { lock },
            (Stage::Clean { lock }, Event::Removed(Err(failure))) => if failure.kind
                == ErrorKind::NotFound {
                // There was none, which is also a perfectly expected state.
                Stage::Listen { lock }
            } else {
                Self::fail(failure.error)
            },
            (Stage::Listen { lock }, Event::Listening(Ok(listener))) => Stage::Bound {
                listener,
                lock,
            },
            (Stage::Listen { .. }, Event::Listening(Err(error))) => Self::fail(error),
            (stage, _) => stage,
        };
        Binding { socket_name, bind_path, lock_path, stage }
    }

    /// The outcome of the attempt, where it has come to an end.
    pub fn finish(self) -> (outcome: Option<Result<Acceptor<Listener, Lock>, AcceptorError>>)
        ensures
            match (outcome, self.stage()) {
                (Some(Ok(acceptor)), Stage::Bound { listener, lock }) => acceptor@ == (
                AcceptorParts { listener, target: self.target(), lock }),
                (Some(Err(error)), Stage::Failed { error: reason }) => error == reason,
                (None, _) => self.stage().action() != Action::Finish,
                _ => false,
            },
    {
        match self.stage {
            Stage::Bound { listener, lock } => Some(
                Ok(
                    Acceptor::bound(
                        listener,
                        self.socket_name,
                        self.bind_path,
                        self.lock_path,
                        lock,
                    ),
                ),
            ),
            Stage::Failed { error } => Some(Err(error)),
            _ => None,
        }
    }

    fn fail(error: std::io::Error) -> (stage: Stage<Listener, Lock>)
        ensures
            stage == Stage::<Listener, Lock>::failed(error),
    {
        Stage::Failed { error: AcceptorError::from(error) }
    }
}

/// The stage that an attempt comes to when calls go as `events` says.
pub open spec fn run<Listener, Lock>(events: Seq<Event<Listener, Lock>>) -> Stage<
    Listener,
    Lock,
>
    decreases events.len(),
{
    if events.len() == 0 {
        Stage::Open
    } else {
        run(events.drop_last()).after(events.last())
    }
}

/// Whether each event is the outcome of the call that came next.
pub open spec fn in_turn<Listener, Lock>(events: Seq<Event<Listener, Lock>>) -> bool
    decreases events.len(),
{
    events.len() > 0 ==> {
        &&& in_turn(events.drop_last())
        &&& match events.last() {
            Event::Opened(_) => run(events.drop_last()).action() == Action::OpenLock,
            Event::Taken(_) => run(events.drop_last()).action() == Action::TakeLock,
            Event::Identified(_) => run(events.drop_last()).action() == Action::IdentifyLock,
            Event::Found(_) => run(events.drop_last()).action() == Action::FindLock,
            Event::Removed(_) => run(events.drop_last()).action() == Action::RemoveSocket,
            Event::Listening(_) => run(events.drop_last()).action() == Action::Listen,
        }
    }
}

/// Whether the last four events up to `end` opened and locked `lock`, and found
/// that very file at the lock path.
pub open spec fn verified_lock<Listener, Lock>(
    events: Seq<Event<Listener, Lock>>,
    end: int,
    lock: Lock,
) -> bool {
    &&& end >= 4
    &&& events[end - 4] == Event::<Listener, Lock>::Opened(Ok(lock))
    &&& events[end - 3] matches Event::Taken(Ok(_))
    &&& same_file(events[end - 2], events[end - 1])
}

/// Whether the events say that the file at the lock path is the locked one.
pub open spec fn same_file<Listener, Lock>(
    locked: Event<Listener, Lock>,
    at_path: Event<Listener, Lock>,
) -> bool {
    &&& locked matches Event::Identified(Ok(id))
    &&& at_path matches Event::Found(Ok(found))
    &&& id == found
}

/// Whether the event says that there is no socket at the bind path.
pub open spec fn clean<Listener, Lock>(event: Event<Listener, Lock>) -> bool {
    match event {
        Event::Removed(Ok(())) => true,
        Event::Removed(Err(failure)) => failure.kind == ErrorKind::NotFound,
        _ => false,
    }
}

/// What the events before a stage were.
spec fn history<Listener, Lock>(events: Seq<Event<Listener, Lock>>) -> bool {
    let end = events.len() as int;
    match run(events) {
        Stage::Open | Stage::Failed { .. } => true,
        Stage::Take { lock } => end >= 1 && events[end - 1] == Event::<Listener, Lock>::Opened(
            Ok(lock),
        ),
        Stage::Identify { lock } => {
            &&& end >= 2
            &&& events[end - 2] == Event::<Listener, Lock>::Opened(Ok(lock))
            &&& events[end - 1] matches Event::Taken(Ok(_))
        },
        Stage::Compare { lock, id } => {
            &&& end >= 3
            &&& events[end - 3] == Event::<Listener, Lock>::Opened(Ok(lock))
            &&& events[end - 2] matches Event::Taken(Ok(_))
            &&& events[end - 1] == Event::<Listener, Lock>::Identified(Ok(id))
        },
        Stage::Clean { lock } => verified_lock(events, end, lock),
        Stage::Listen { lock } => end >= 1 && verified_lock(events, end - 1, lock) && clean(
            events[end - 1],
        ),
        Stage::Bound { listener, lock } => {
            &&& end >= 2
            &&& verified_lock(events, end - 2, lock)
            &&& clean(events[end - 2])
            &&& events[end - 1] == Event::<Listener, Lock>::Listening(Ok(listener))
        },
    }
}

proof fn history_holds<Listener, Lock>(events: Seq<Event<Listener, Lock>>)
    requires
        in_turn(events),
    ensures
        history(events),
    decreases events.len(),
{
    if events.len() > 0 {
        let before = events.drop_last();
        history_holds(before);
        let end = events.len() as int;
        assert(forall|i: int| 0 <= i < end - 1 ==> #[trigger] events[i] == before[i]);
        match run(before) {
            Stage::Clean { lock } => {
                assert(verified_lock(events, end - 1, lock));
            },
            Stage::Listen { lock } => {
                assert(verified_lock(events, end - 2, lock));
            },
            _ => {},
        }
    }
}

/// A socket is bound only under a lock on the very file that is at the lock
/// path, and after a stale socket was removed under that lock. The acceptor gets
/// the listener that was bound and the lock that was verified.
pub proof fn bound_under_verified_lock<Listener, Lock>(
    events: Seq<Event<Listener, Lock>>,
    listener: Listener,
    lock: Lock,
)
    requires
        in_turn(events),
        run(events) == (Stage::Bound { listener, lock }),
    ensures
        events.len() >= 6,
        verified_lock(events, events.len() - 2, lock),
        clean(events[events.len() - 2]),
        events.last() == Event::<Listener, Lock>::Listening(Ok(listener)),
{
    history_holds(events);
}

/// A stale socket is to be removed only under a lock on the very file that is at
/// the lock path, whether or not the removal then succeeds.
pub proof fn cleaned_under_verified_lock<Listener, Lock>(
    events: Seq<Event<Listener, Lock>>,
    lock: Lock,
)
    requires
        in_turn(events),
        run(events) == (Stage::<Listener, Lock>::Clean { lock }),
    ensures
        verified_lock(events, events.len() as int, lock),
{
    history_holds(events);
}

/// The socket is to be bound only under a lock on the very file that is at the
/// lock path, and after a stale socket was removed under that lock, whether or not
/// the binding then succeeds.
pub proof fn listening_under_verified_lock<Listener, Lock>(
    events: Seq<Event<Listener, Lock>>,
    lock: Lock,
)
    requires
        in_turn(events),
        run(events) == (Stage::<Listener, Lock>::Listen { lock }),
    ensures
        verified_lock(events, events.len() - 1, lock),
        clean(events.last()),
{
    history_holds(events);
}

/// An attempt fails with the error of the call that failed, or because the lock
/// is held elsewhere, and for no other reason.
pub proof fn failure_has_reason<Listener, Lock>(
    events: Seq<Event<Listener, Lock>>,
    error: AcceptorError,
)
    requires
        in_turn(events),
        run(events) == (Stage::<Listener, Lock>::Failed { error }),
    ensures
        events.len() > 0,
        match events.last() {
            Event::Opened(Err(reason)) => error == AcceptorError::Io(reason),
            Event::Taken(Err(refusal)) => if refusal.held {
                error == AcceptorError::SocketInUse
            } else {
                error == AcceptorError::Io(refusal.error)
            },
            Event::Identified(Err(reason)) => error == AcceptorError::Io(reason),
            Event::Found(Err(failure)) => failure.kind != ErrorKind::NotFound && error
                == AcceptorError::Io(failure.error),
            Event::Removed(Err(failure)) => failure.kind != ErrorKind::NotFound && error
                == AcceptorError::Io(failure.error),
            Event::Listening(Err(reason)) => error == AcceptorError::Io(reason),
            _ => false,
        },
{
}

/// Where the locked file is not the one at the lock path, the attempt starts
/// over, with nothing kept of what was locked.
pub proof fn unverified_lock_is_given_up<Listener, Lock>(
    events: Seq<Event<Listener, Lock>>,
    lock: Lock,
    id: FileId,
    found: Result<FileId, IoFailure>,
)
    requires
        run(events) == (Stage::<Listener, Lock>::Compare { lock, id }),
        found != Ok::<FileId, IoFailure>(id),
        found matches Err(failure) ==> failure.kind == ErrorKind::NotFound,
    ensures
        run(events.push(Event::<Listener, Lock>::Found(found))) == run(
            Seq::<Event<Listener, Lock>>::empty(),
        ),
{
    let all = events.push(Event::<Listener, Lock>::Found(found));
    assert(all.drop_last() =~= events);
}

/// An attempt succeeds where every call does and the file at the lock path is
/// the locked one, however many attempts to lock it were given up before.
pub proof fn verified_lock_gets_bound<Listener, Lock>(
    events: Seq<Event<Listener, Lock>>,
    lock: Lock,
    id: FileId,
    removed: Event<Listener, Lock>,
    listener: Listener,
)
    requires
        run(events) == Stage::<Listener, Lock>::Open,
        clean(removed),
    ensures
        run(
            events + seq![
                Event::<Listener, Lock>::Opened(Ok(lock)),
                Event::<Listener, Lock>::Taken(Ok(())),
                Event::<Listener, Lock>::Identified(Ok(id)),
                Event::<Listener, Lock>::Found(Ok(id)),
                removed,
                Event::<Listener, Lock>::Listening(Ok(listener)),
            ],
        ) == (Stage::Bound { listener, lock }),
{
    reveal_with_fuel(run, 7);
    let more = seq![
        Event::<Listener, Lock>::Opened(Ok(lock)),
        Event::<Listener, Lock>::Taken(Ok(())),
        Event::<Listener, Lock>::Identified(Ok(id)),
        Event::<Listener, Lock>::Found(Ok(id)),
        removed,
        Event::<Listener, Lock>::Listening(Ok(listener)),
    ];
    let e6 = events + more;
    let e5 = e6.drop_last();
    let e4 = e5.drop_last();
    let e3 = e4.drop_last();
    let e2 = e3.drop_last();
    let e1 = e2.drop_last();
    assert(e1.drop_last() =~= events);
}

/// The lock file that is held as a guard, once it was found at the lock path.
pub open spec fn guard<Listener, Lock>(stage: Stage<Listener, Lock>) -> Option<Lock> {
    match stage {
        Stage::Clean { lock } => Some(lock),
        Stage::Listen { lock } => Some(lock),
        Stage::Bound { lock, .. } => Some(lock),
        _ => None,
    }
}

/// The file that was last found at the lock path.
pub open spec fn last_found<Listener, Lock>(events: Seq<Event<Listener, Lock>>) -> Option<FileId>
    decreases events.len(),
{
    if events.len() == 0 {
        None
    } else {
        match events.last() {
            Event::Found(Ok(id)) => Some(id),
            _ => last_found(events.drop_last()),
        }
    }
}

/// Whether the metadata of an open lock file say which file it is: the one that
/// `file_of` gives.
pub open spec fn identified_truly<Listener, Lock>(
    events: Seq<Event<Listener, Lock>>,
    file_of: spec_fn(Lock) -> FileId,
) -> bool {
    forall|i: int|
        0 <= i < events.len() - 2 ==> (#[trigger] events[i] matches Event::Opened(Ok(lock)) ==> (
        events[i + 2] matches Event::Identified(Ok(id)) ==> id == file_of(lock)))
}

/// Whether opening the lock path opens the file `id`.
pub open spec fn opens_file<Listener, Lock>(
    events: Seq<Event<Listener, Lock>>,
    file_of: spec_fn(Lock) -> FileId,
    id: FileId,
) -> bool {
    forall|i: int|
        0 <= i < events.len() ==> (#[trigger] events[i] matches Event::Opened(Ok(lock))
            ==> file_of(lock) == id)
}

/// Whether a lock is refused as held, wherever it is asked for on the file `id`.
pub open spec fn refused_as_held<Listener, Lock>(
    events: Seq<Event<Listener, Lock>>,
    file_of: spec_fn(Lock) -> FileId,
    id: FileId,
) -> bool {
    forall|i: int|
        0 <= i < events.len() - 1 ==> (#[trigger] events[i] matches Event::Opened(Ok(lock)) ==> (
        file_of(lock) == id ==> (events[i + 1] matches Event::Taken(taken) ==> (taken matches Err(
            refusal,
        ) && refusal.held))))
}

/// A guard is a lock on the file that was found at the lock path.
pub proof fn guard_is_on_found_file<Listener, Lock>(
    events: Seq<Event<Listener, Lock>>,
    file_of: spec_fn(Lock) -> FileId,
    lock: Lock,
)
    requires
        in_turn(events),
        identified_truly(events, file_of),
        guard(run(events)) == Some(lock),
    ensures
        last_found(events) == Some(file_of(lock)),
{
    reveal_with_fuel(last_found, 4);
    history_holds(events);
    let end: int = match run(events) {
        Stage::Clean { .. } => events.len() as int,
        Stage::Listen { .. } => events.len() - 1,
        _ => events.len() - 2,
    };
    assert(verified_lock(events, end, lock));
    assert(events[end - 4] == Event::<Listener, Lock>::Opened(Ok(lock)));
}

/// At most one guard is alive for the file at a lock path. As long as a first
/// attempt holds its guard and the file that it found is still at the path, a
/// second attempt that opens this file ends with the socket being in use, and
/// neither removes the socket nor binds one.
///
/// The operating system tells truly which file is open, and refuses a lock on a
/// file that is locked already.
pub proof fn live_guard_excludes_others<Listener, Lock>(
    first: Seq<Event<Listener, Lock>>,
    alive: Lock,
    second: Seq<Event<Listener, Lock>>,
    file_of: spec_fn(Lock) -> FileId,
    at_path: FileId,
)
    requires
        in_turn(first),
        identified_truly(first, file_of),
        guard(run(first)) == Some(alive),
        last_found(first) == Some(at_path),
        in_turn(second),
        opens_file(second, file_of, at_path),
        refused_as_held(second, file_of, file_of(alive)),
    ensures
        second.len() <= 2,
        guard(run(second)) is None,
        forall|i: int|
            0 <= i < second.len() ==> !(#[trigger] second[i] is Removed) && !(
            second[i] is Listening),
        run(second).action() == Action::Finish && second[0] is Opened && (
        second[0]->Opened_0 is Ok) ==> run(second) == (Stage::<Listener, Lock>::Failed {
            error: AcceptorError::SocketInUse,
        }),
    decreases second.len(),
{
    guard_is_on_found_file(first, file_of, alive);
    if second.len() > 0 {
        let before = second.drop_last();
        assert(forall|i: int| 0 <= i < before.len() ==> #[trigger] before[i] == second[i]);
        assert forall|i: int| 0 <= i < before.len() - 1 implies (#[trigger] before[i] matches
            Event::Opened(Ok(lock)) ==> (file_of(lock) == file_of(alive) ==> (
        before[i + 1] matches Event::Taken(taken) ==> (taken matches Err(refusal)
            && refusal.held)))) by {
            assert(before[i] == second[i]);
            assert(before[i + 1] == second[i + 1]);
        }
        live_guard_excludes_others(first, alive, before, file_of, at_path);
        reveal_with_fuel(run, 3);
        reveal_with_fuel(in_turn, 3);
        assert(second[second.len() - 1] == second.last());
        if second.len() > 1 {
            assert(before[0] == second[0]);
        }
    }
}

/// Whether every call is permitted and no lock is held, while the file `at_path`
/// stays at the lock path.
pub open spec fn permitted<Listener, Lock>(
    events: Seq<Event<Listener, Lock>>,
    at_path: FileId,
) -> bool {
    forall|i: int|
        0 <= i < events.len() ==> match #[trigger] events[i] {
            Event::Opened(outcome) => outcome is Ok,
            Event::Taken(outcome) => outcome is Ok,
            Event::Identified(outcome) => outcome is Ok,
            Event::Found(outcome) => outcome == Ok::<FileId, IoFailure>(at_path),
            Event::Removed(_) => clean(events[i]),
            Event::Listening(outcome) => outcome is Ok,
        }
}

/// An attempt binds the socket, by one call of each kind, where every call is
/// permitted, no lock is held and nothing else touches the files: before there was
/// any acceptor, or after the last one released its lock and removed its files.
pub proof fn free_socket_gets_bound<Listener, Lock>(
    events: Seq<Event<Listener, Lock>>,
    file_of: spec_fn(Lock) -> FileId,
    at_path: FileId,
)
    requires
        in_turn(events),
        identified_truly(events, file_of),
        opens_file(events, file_of, at_path),
        permitted(events, at_path),
    ensures
        events.len() <= 6,
        run(events).action() == Action::Finish <==> events.len() == 6,
        events.len() == 6 ==> run(events) is Bound,
{
    free_socket_progress(events, file_of, at_path);
}

proof fn free_socket_progress<Listener, Lock>(
    events: Seq<Event<Listener, Lock>>,
    file_of: spec_fn(Lock) -> FileId,
    at_path: FileId,
)
    requires
        in_turn(events),
        identified_truly(events, file_of),
        opens_file(events, file_of, at_path),
        permitted(events, at_path),
    ensures
        events.len() <= 6,
        match run(events) {
            Stage::Open => events.len() == 0,
            Stage::Take { .. } => events.len() == 1,
            Stage::Identify { .. } => events.len() == 2,
            Stage::Compare { id, .. } => events.len() == 3 && id == at_path,
            Stage::Clean { .. } => events.len() == 4,
            Stage::Listen { .. } => events.len() == 5,
            Stage::Bound { .. } => events.len() == 6,
            Stage::Failed { .. } => false,
        },
    decreases events.len(),
{
    if events.len() > 0 {
        let before = events.drop_last();
        assert(forall|i: int| 0 <= i < before.len() ==> #[trigger] before[i] == events[i]);
        assert forall|i: int| 0 <= i < before.len() - 2 implies (#[trigger] before[i] matches
            Event::Opened(Ok(lock)) ==> (before[i + 2] matches Event::Identified(Ok(id))
            ==> id == file_of(lock))) by {
            assert(before[i] == events[i]);
            assert(before[i + 2] == events[i + 2]);
        }
        assert(permitted(before, at_path)) by {
            assert forall|i: int| 0 <= i < before.len() implies match #[trigger] before[i] {
                Event::Opened(outcome) => outcome is Ok,
                Event::Taken(outcome) => outcome is Ok,
                Event::Identified(outcome) => outcome is Ok,
                Event::Found(outcome) => outcome == Ok::<FileId, IoFailure>(at_path),
                Event::Removed(_) => clean(before[i]),
                Event::Listening(outcome) => outcome is Ok,
            } by {
                assert(before[i] == events[i]);
            }
        }
        free_socket_progress(before, file_of, at_path);
        history_holds(events);
        assert(events[events.len() - 1] == events.last());
    }
}

/// A socket has the name that it was given, and its path ends in that name. Its lock
/// file is beside it, at the path of the socket with ".lock" after it.
pub proof fn lock_is_beside_socket(directory: Seq<u8>, socket_name: Seq<char>)
    ensures
        ({
            let target = Target::within(directory, socket_name);
            let name = vstd::utf8::encode_utf8(socket_name);
            &&& target.socket_name == socket_name
            &&& target.bind_path == path::joined(directory, name)
            &&& target.lock_path == target.bind_path + vstd::utf8::encode_utf8(".lock"@)
        }),
{
    let target = Target::within(directory, socket_name);
    let name = vstd::utf8::encode_utf8(socket_name);
    path::lock_path_extends_socket_path(directory, name);
    path::lock_name_keeps_name(target.bind_path);
    assert(target.lock_path =~= target.lock_path.take(target.bind_path.len() as int)
        + target.lock_path.skip(target.bind_path.len() as int));
}

/// Each call that succeeds leads to the next one, with the same lock file from the
/// opening on, and the last one to a bound socket.
pub proof fn success_leads_on<Listener, Lock>(lock: Lock, id: FileId, listener: Listener)
    ensures
        Stage::<Listener, Lock>::Open.after(Event::Opened(Ok(lock))) == (Stage::<
            Listener,
            Lock,
        >::Take { lock }),
        (Stage::<Listener, Lock>::Take { lock }).after(Event::Taken(Ok(()))) == (Stage::<
            Listener,
            Lock,
        >::Identify { lock }),
        (Stage::<Listener, Lock>::Identify { lock }).after(Event::Identified(Ok(id))) == (Stage::<
            Listener,
            Lock,
        >::Compare { lock, id }),
        (Stage::<Listener, Lock>::Clean { lock }).after(Event::Removed(Ok(()))) == (Stage::<
            Listener,
            Lock,
        >::Listen { lock }),
        (Stage::<Listener, Lock>::Listen { lock }).after(Event::Listening(Ok(listener)))
            == (Stage::<Listener, Lock>::Bound { listener, lock }),
{
}

/// The attempt goes on with a locked file just where it is the one at the lock path,
/// by its device and its inode. Where the path has another file or none, it starts
/// over.
pub proof fn locked_file_must_be_at_path<Listener, Lock>(
    lock: Lock,
    id: FileId,
    found: FileId,
    failure: IoFailure,
)
    ensures
        id.dev == found.dev && id.ino == found.ino ==> (Stage::<Listener, Lock>::Compare {
            lock,
            id,
        }).after(Event::Found(Ok(found))) == (Stage::<Listener, Lock>::Clean { lock }),
        id.dev != found.dev || id.ino != found.ino ==> (Stage::<Listener, Lock>::Compare {
            lock,
            id,
        }).after(Event::Found(Ok(found))) == Stage::<Listener, Lock>::Open,
        failure.kind == ErrorKind::NotFound ==> (Stage::<Listener, Lock>::Compare {
            lock,
            id,
        }).after(Event::Found(Err(failure))) == Stage::<Listener, Lock>::Open,
{
}

/// A call that fails ends the attempt with its error. The exceptions are a lock that
/// is held, which says that the socket is in use, and a socket that was not there to
/// be removed, which is as good as removed.
pub proof fn failed_call_ends_attempt<Listener, Lock>(
    lock: Lock,
    id: FileId,
    error: std::io::Error,
    refusal: LockRefusal,
    failure: IoFailure,
)
    ensures
        Stage::<Listener, Lock>::failed(error) == (Stage::<Listener, Lock>::Failed {
            error: AcceptorError::Io(error),
        }),
        Stage::<Listener, Lock>::Open.after(Event::Opened(Err(error))) == (Stage::<
            Listener,
            Lock,
        >::Failed { error: AcceptorError::Io(error) }),
        (Stage::<Listener, Lock>::Take { lock }).after(Event::Taken(Err(refusal))) == (Stage::<
            Listener,
            Lock,
        >::Failed {
            error: if refusal.held {
                AcceptorError::SocketInUse
            } else {
                AcceptorError::Io(refusal.error)
            },
        }),
        (Stage::<Listener, Lock>::Identify { lock }).after(Event::Identified(Err(error)))
            == (Stage::<Listener, Lock>::Failed { error: AcceptorError::Io(error) }),
        failure.kind != ErrorKind::NotFound ==> (Stage::<Listener, Lock>::Compare {
            lock,
            id,
        }).after(Event::Found(Err(failure))) == (Stage::<Listener, Lock>::Failed {
            error: AcceptorError::Io(failure.error),
        }),
        failure.kind != ErrorKind::NotFound ==> (Stage::<Listener, Lock>::Clean { lock }).after(
            Event::Removed(Err(failure)),
        ) == (Stage::<Listener, Lock>::Failed { error: AcceptorError::Io(failure.error) }),
        failure.kind == ErrorKind::NotFound ==> (Stage::<Listener, Lock>::Clean { lock }).after(
            Event::Removed(Err(failure)),
        ) == (Stage::<Listener, Lock>::Listen { lock }),
        (Stage::<Listener, Lock>::Listen { lock }).after(Event::Listening(Err(error)))
            == (Stage::<Listener, Lock>::Failed { error: AcceptorError::Io(error) }),
{
}

/// Only the outcome of the call that an attempt waits for counts. Any other leaves the
/// attempt as it is, and so does everything once it has come to an end.
pub proof fn other_outcomes_do_not_count<Listener, Lock>(
    stage: Stage<Listener, Lock>,
    event: Event<Listener, Lock>,
)
    requires
        !(stage is Open && event is Opened),
        !(stage is Take && event is Taken),
        !(stage is Identify && event is Identified),
        !(stage is Compare && event is Found),
        !(stage is Clean && event is Removed),
        !(stage is Listen && event is Listening),
    ensures
        stage.after(event) == stage,
{
}

/// The call that comes next is the one that the stage waits for, and nothing is to be
/// done just where the socket is bound or the attempt has failed.
pub proof fn stage_waits_for_call<Listener, Lock>(stage: Stage<Listener, Lock>)
    ensures
        stage.action() == Action::OpenLock <==> stage is Open,
        stage.action() == Action::TakeLock <==> stage is Take,
        stage.action() == Action::IdentifyLock <==> stage is Identify,
        stage.action() == Action::FindLock <==> stage is Compare,
        stage.action() == Action::RemoveSocket <==> stage is Clean,
        stage.action() == Action::Listen <==> stage is Listen,
        stage.action() == Action::Finish <==> stage is Bound || stage is Failed,
{
}

/// The lock file is at hand at every stage from the opening on, and none is where the
/// attempt has still to open one or has failed.
pub proof fn lock_is_at_hand_while_open<Listener, Lock>(stage: Stage<Listener, Lock>)
    ensures
        stage.lock() is None <==> stage is Open || stage is Failed,
        stage matches Stage::Take { lock } ==> stage.lock() == Some(lock),
        stage matches Stage::Identify { lock } ==> stage.lock() == Some(lock),
        stage matches Stage::Compare { lock, .. } ==> stage.lock() == Some(lock),
        stage matches Stage::Clean { lock } ==> stage.lock() == Some(lock),
        stage matches Stage::Listen { lock } ==> stage.lock() == Some(lock),
        stage matches Stage::Bound { lock, .. } ==> stage.lock() == Some(lock),
{
}

} // verus!
