use rustix::io::Errno;
use std::io::Error;
use std::path::Path;
use wayland_io::socket::acceptor::{Acceptor, AcceptorError};
use wayland_io::socket::binding::{Action, Binding, Event, FileId};
use wayland_io::socket::os::{lock_is_held, ErrorKind, IoFailure, LockRefusal};
use wayland_io::socket::path::{build_paths, candidate_name, join};
use wayland_io::socket::range::Search;

type Listening = Acceptor<&'static str, u32>;
type Attempt = Binding<&'static str, u32>;

const FILE: FileId = FileId { dev: 1, ino: 2 };

fn error(errno: Errno) -> Error {
    errno.into()
}

fn failure(errno: Errno) -> IoFailure {
    IoFailure::new(errno.into())
}

fn code(outcome: Option<Result<Listening, AcceptorError>>) -> Option<i32> {
    match outcome {
        Some(Err(AcceptorError::Io(error))) => error.raw_os_error(),
        other => panic!("{:?}", other),
    }
}

fn attempt() -> Attempt {
    Acceptor::bind(b"/run/user/1000", "wayland-1")
}

/// An attempt whose lock file `lock` was opened and locked.
fn locked(binding: Attempt, lock: u32) -> Attempt {
    assert_eq!(binding.action(), Action::OpenLock);
    assert_eq!(binding.lock(), None);
    let binding = binding.step(Event::Opened(Ok(lock)));
    assert_eq!(binding.action(), Action::TakeLock);
    assert_eq!(binding.lock(), Some(&lock));
    let binding = binding.step(Event::Taken(Ok(())));
    assert_eq!(binding.action(), Action::IdentifyLock);
    binding
}

/// An attempt whose lock file is the one at the lock path.
fn verified(binding: Attempt, lock: u32) -> Attempt {
    let binding = locked(binding, lock).step(Event::Identified(Ok(FILE)));
    assert_eq!(binding.action(), Action::FindLock);
    let binding = binding.step(Event::Found(Ok(FILE)));
    assert_eq!(binding.action(), Action::RemoveSocket);
    assert_eq!(binding.lock(), Some(&lock));
    binding
}

#[test]
fn lock_name_is_appended() {
    let (bind_path, lock_path) = build_paths(b"/run", "custom.sock");
    assert_eq!(bind_path, b"/run/custom.sock");
    assert_eq!(lock_path, b"/run/custom.sock.lock");
}

#[test]
fn joined_paths() {
    assert_eq!(join(b"/run", b"a"), b"/run/a");
    assert_eq!(join(b"/run/", b"a"), b"/run/a");
    assert_eq!(join(b"", b"a"), b"a");
    assert_eq!(join(b"/run", b""), b"/run/");
    assert_eq!(join(b"/run", b"/tmp/a"), b"/tmp/a");
    assert_eq!(join(b"/r\xff", b"a/b"), b"/r\xff/a/b");
}

#[test]
fn joined_paths_are_those_of_std() {
    for directory in ["", "/", "/run", "/run/", "run", "run//"] {
        for name in ["", "a", "/a", "a/b", "./a", "../a", "a.b"] {
            let expected = Path::new(directory).join(name);
            let path = String::from_utf8(join(directory.as_bytes(), name.as_bytes())).unwrap();
            assert_eq!(path, expected.to_str().unwrap());
        }
    }
}

#[test]
fn candidate_names() {
    assert_eq!(candidate_name("wayland", 0), "wayland-0");
    assert_eq!(candidate_name("wayland", 9), "wayland-9");
    assert_eq!(candidate_name("wayland", 10), "wayland-10");
    assert_eq!(candidate_name("", 305), "-305");
    assert_eq!(candidate_name("a-1", 2), "a-1-2");
    assert_eq!(candidate_name("w", usize::MAX), format!("w-{}", usize::MAX));
}

#[test]
fn runtime_dir_must_be_absolute() {
    assert_eq!(Listening::xdg_runtime_dir(Some("/run/user/1000")).unwrap(), b"/run/user/1000");
    assert_eq!(Listening::xdg_runtime_dir(Some("/")).unwrap(), b"/");
    for value in [None, Some(""), Some("run/user"), Some("./run")] {
        assert!(matches!(
            Listening::xdg_runtime_dir(value),
            Err(AcceptorError::RuntimeDirInvalid)
        ));
        assert!(matches!(
            Listening::bind_name(value, "a"),
            Err(AcceptorError::RuntimeDirInvalid)
        ));
        assert!(matches!(
            Listening::bind_range(value, "a"),
            Err(AcceptorError::RuntimeDirInvalid)
        ));
        assert!(matches!(Listening::bind_auto(value), Err(AcceptorError::RuntimeDirInvalid)));
    }
}

#[test]
fn bind_name_is_in_the_runtime_dir() {
    let binding = match Listening::bind_name(Some("/run"), "my.sock") {
        Ok(binding) => binding,
        Err(error) => panic!("{:?}", error),
    };
    assert_eq!(binding.bind_path(), b"/run/my.sock");
    assert_eq!(binding.lock_path(), b"/run/my.sock.lock");
    assert_eq!(binding.action(), Action::OpenLock);
}

#[test]
fn socket_is_bound_under_the_lock() {
    let binding = verified(attempt(), 5).step(Event::Removed(Ok(())));
    assert_eq!(binding.action(), Action::Listen);
    let binding = binding.step(Event::Listening(Ok("listener")));
    assert_eq!(binding.action(), Action::Finish);
    assert_eq!(binding.lock(), Some(&5));
    let acceptor = binding.finish().unwrap().unwrap();
    assert_eq!(acceptor.socket_name(), "wayland-1");
    assert_eq!(acceptor.bind_path(), b"/run/user/1000/wayland-1");
    assert_eq!(acceptor.lock_path(), b"/run/user/1000/wayland-1.lock");
    assert_eq!(*acceptor.listener(), "listener");
}

#[test]
fn missing_socket_is_no_obstacle() {
    let binding = verified(attempt(), 5).step(Event::Removed(Err(failure(Errno::NOENT))));
    assert_eq!(binding.action(), Action::Listen);
}

#[test]
fn replaced_lock_file_is_retried() {
    let binding = locked(attempt(), 5).step(Event::Identified(Ok(FILE)));
    let binding = binding.step(Event::Found(Ok(FileId { dev: 1, ino: 3 })));
    let binding = locked(binding, 6).step(Event::Identified(Ok(FILE)));
    let binding = binding.step(Event::Found(Ok(FileId { dev: 2, ino: 2 })));
    let binding = verified(binding, 7).step(Event::Removed(Ok(())));
    let binding = binding.step(Event::Listening(Ok("listener")));
    assert_eq!(binding.lock(), Some(&7));
    assert!(binding.finish().unwrap().is_ok());
}

#[test]
fn removed_lock_file_is_retried() {
    let binding = locked(attempt(), 5).step(Event::Identified(Ok(FILE)));
    let binding = binding.step(Event::Found(Err(failure(Errno::NOENT))));
    assert_eq!(binding.action(), Action::OpenLock);
    assert_eq!(binding.lock(), None);
}

#[test]
fn held_lock_means_socket_in_use() {
    for errno in [Errno::WOULDBLOCK, Errno::AGAIN] {
        let binding = attempt().step(Event::Opened(Ok(5)));
        let binding = binding.step(Event::Taken(Err(LockRefusal::new(errno.raw_os_error()))));
        assert_eq!(binding.action(), Action::Finish);
        assert_eq!(binding.lock(), None);
        assert!(matches!(binding.finish(), Some(Err(AcceptorError::SocketInUse))));
    }
}

#[test]
fn failed_calls_end_the_attempt() {
    let binding = attempt().step(Event::Opened(Err(error(Errno::ACCESS))));
    assert_eq!(code(binding.finish()), Some(Errno::ACCESS.raw_os_error()));

    let binding = attempt().step(Event::Opened(Ok(5)));
    let binding = binding.step(Event::Taken(Err(LockRefusal::new(Errno::NOLCK.raw_os_error()))));
    assert_eq!(code(binding.finish()), Some(Errno::NOLCK.raw_os_error()));

    let binding = locked(attempt(), 5).step(Event::Identified(Err(error(Errno::IO))));
    assert_eq!(code(binding.finish()), Some(Errno::IO.raw_os_error()));

    let binding = locked(attempt(), 5).step(Event::Identified(Ok(FILE)));
    let binding = binding.step(Event::Found(Err(failure(Errno::ACCESS))));
    assert_eq!(code(binding.finish()), Some(Errno::ACCESS.raw_os_error()));

    let binding = verified(attempt(), 5).step(Event::Removed(Err(failure(Errno::PERM))));
    assert_eq!(code(binding.finish()), Some(Errno::PERM.raw_os_error()));

    let binding = verified(attempt(), 5).step(Event::Removed(Ok(())));
    let binding = binding.step(Event::Listening(Err(error(Errno::ADDRINUSE))));
    assert_eq!(binding.lock(), None);
    assert_eq!(code(binding.finish()), Some(Errno::ADDRINUSE.raw_os_error()));
}

#[test]
fn unfinished_attempt_has_no_outcome() {
    assert!(attempt().finish().is_none());
    assert!(verified(attempt(), 5).finish().is_none());
}

#[test]
fn outcome_of_another_call_changes_nothing() {
    let binding = attempt().step(Event::Listening(Ok("listener")));
    assert_eq!(binding.action(), Action::OpenLock);
}

#[test]
fn error_kinds() {
    assert_eq!(failure(Errno::NOENT).kind, ErrorKind::NotFound);
    assert_eq!(failure(Errno::AGAIN).kind, ErrorKind::WouldBlock);
    assert_eq!(failure(Errno::PERM).kind, ErrorKind::Other);
    assert_eq!(
        failure(Errno::PERM).error.raw_os_error(),
        Some(Errno::PERM.raw_os_error())
    );
}

#[test]
fn lock_refusals() {
    assert!(LockRefusal::new(Errno::AGAIN.raw_os_error()).held);
    assert!(LockRefusal::new(Errno::WOULDBLOCK.raw_os_error()).held);
    let refusal = LockRefusal::new(Errno::INTR.raw_os_error());
    assert!(!refusal.held);
    assert_eq!(refusal.error.raw_os_error(), Some(Errno::INTR.raw_os_error()));
}

#[test]
fn either_code_says_that_a_lock_is_held() {
    assert!(lock_is_held(1, 1, 4));
    assert!(lock_is_held(4, 1, 4));
    assert!(!lock_is_held(11, 1, 4));
}

#[test]
fn io_errors_convert() {
    assert!(matches!(AcceptorError::from(error(Errno::IO)), AcceptorError::Io(_)));
}

#[test]
fn auto_candidates() {
    let (range, indices) = Listening::bind_auto(Some("/run")).unwrap();
    assert_eq!(indices, 0..33);
    let paths: Vec<Vec<u8>> = indices
        .map(|index| match range.candidate::<&'static str, u32>(Some(index)) {
            Ok(binding) => binding.bind_path().to_vec(),
            Err(error) => panic!("{:?}", error),
        })
        .collect();
    assert_eq!(paths.len(), 33);
    assert_eq!(paths[0], b"/run/wayland-0");
    assert_eq!(paths[32], b"/run/wayland-32");
}

#[test]
fn no_candidate_left() {
    let range = Listening::bind_range(Some("/run"), "sock").unwrap();
    assert!(matches!(
        range.candidate::<&'static str, u32>(None),
        Err(AcceptorError::NoAvailableSocket)
    ));
}

#[test]
fn sockets_in_use_are_passed_over() {
    let range = Listening::bind_range(Some("/run"), "sock").unwrap();
    assert!(matches!(
        range.judge::<u32>(Err(AcceptorError::SocketInUse)),
        Search::Continue
    ));
    assert!(matches!(range.judge(Ok(3)), Search::Done(Ok(3))));
    assert!(matches!(
        range.judge::<u32>(Err(AcceptorError::Io(error(Errno::IO)))),
        Search::Done(Err(AcceptorError::Io(_)))
    ));
    assert!(matches!(
        range.judge::<u32>(Err(AcceptorError::NoAvailableSocket)),
        Search::Done(Err(AcceptorError::NoAvailableSocket))
    ));
    assert!(matches!(
        range.judge::<u32>(Err(AcceptorError::RuntimeDirInvalid)),
        Search::Done(Err(AcceptorError::RuntimeDirInvalid))
    ));
}

#[test]
fn candidates_have_their_own_files() {
    let mut paths = Vec::new();
    for index in [0, 1, 9, 10, 11, 100] {
        let (bind_path, lock_path) = build_paths(b"/run", &candidate_name("wayland", index));
        paths.push(bind_path);
        paths.push(lock_path);
    }
    let count = paths.len();
    paths.sort();
    paths.dedup();
    assert_eq!(paths.len(), count);
}

#[test]
fn live_guard_excludes_a_second_attempt() {
    let first = verified(attempt(), 5).step(Event::Removed(Ok(())));
    let first = first.step(Event::Listening(Ok("listener"))).finish().unwrap().unwrap();
    let second = attempt().step(Event::Opened(Ok(6)));
    let second = second.step(Event::Taken(Err(LockRefusal::new(Errno::AGAIN.raw_os_error()))));
    assert!(matches!(second.finish(), Some(Err(AcceptorError::SocketInUse))));
    assert_eq!(*first.listener(), "listener");
    drop(first);
    let third = verified(attempt(), 7).step(Event::Removed(Err(failure(Errno::NOENT))));
    let third = third.step(Event::Listening(Ok("another")));
    assert_eq!(*third.finish().unwrap().unwrap().listener(), "another");
}
