//! Errors of the operating system, as the decisions of this crate see them.

use vstd::prelude::*;

verus! {

/// `std::io::Error`, which this crate carries without looking inside.
#[verifier::external_type_specification]
#[verifier::external_body]
pub struct ExIoError(std::io::Error);

/// The kinds of I/O error that are treated apart.
#[derive(Debug, Clone, Copy, PartialEq, Eq, Structural)]
pub enum ErrorKind {
    /// There is no such file.
    NotFound,
    /// The operation would have to wait.
    WouldBlock,
    /// Anything else.
    Other,
}

/// `std::io::Error::kind`, with the kinds that are not treated apart as one.
///
/// Which kind an error code has is up to the operating system, so nothing is
/// said of the result.
#[verifier::external_body]
fn error_kind(error: &std::io::Error) -> ErrorKind {
    match error.kind() {
        std::io::ErrorKind::NotFound => ErrorKind::NotFound,
        std::io::ErrorKind::WouldBlock => ErrorKind::WouldBlock,
        _ => ErrorKind::Other,
    }
}

/// An I/O error together with its kind.
#[derive(Debug)]
pub struct IoFailure {
    /// The kind of the error.
    pub kind: ErrorKind,
    /// The error.
    pub error: std::io::Error,
}

/// Whether the operating system may say that the error is of that kind.
pub closed spec fn of_kind(error: std::io::Error, kind: ErrorKind) -> bool {
    call_ensures(error_kind, (&error,), kind)
}

impl IoFailure {
    /// Looks up the kind of an error.
    pub fn new(error: std::io::Error) -> (failure: Self)
        ensures
            failure.error == error,
            of_kind(error, failure.kind),
    {
        let kind = error_kind(&error);
        IoFailure { kind, error }
    }
}

/// The code of `rustix::io::Errno::WOULDBLOCK`, which is up to the operating
/// system, so nothing is said of it.
#[verifier::external_body]
fn would_block_code() -> i32 {
    rustix::io::Errno::WOULDBLOCK.raw_os_error()
}

/// The code of `rustix::io::Errno::AGAIN`, which is up to the operating system,
/// so nothing is said of it.
#[verifier::external_body]
fn again_code() -> i32 {
    rustix::io::Errno::AGAIN.raw_os_error()
}

/// The I/O error that `rustix::io::Errno` converts to: the one that stands for
/// an error code of the operating system.
pub uninterp spec fn os_error(code: i32) -> std::io::Error;

/// `std::io::Error::from` on the `rustix::io::Errno` of a code: the error for
/// that code. `Errno` takes codes from 1 to 4095.
#[verifier::external_body]
fn error_of_code(code: i32) -> (error: std::io::Error)
    requires
        0 < code < 4096,
    ensures
        error == os_error(code),
{
    rustix::io::Errno::from_raw_os_error(code).into()
}

/// Whether a failed attempt to lock a file failed because the lock is held
/// elsewhere, given the two codes that say so.
pub fn lock_is_held(code: i32, would_block: i32, again: i32) -> (held: bool)
    ensures
        held == (code == would_block || code == again),
{
    code == would_block || code == again
}

/// Whether the operating system may have a pair of codes that say that a lock is held,
/// by which the code of a failed attempt says so or not.
pub closed spec fn says_held(code: i32, held: bool) -> bool {
    exists|would_block: i32, again: i32|
        {
            &&& #[trigger] call_ensures(would_block_code, (), would_block)
            &&& #[trigger] call_ensures(again_code, (), again)
            &&& held == (code == would_block || code == again)
        }
}

/// A failed attempt to lock a file.
#[derive(Debug)]
pub struct LockRefusal {
    /// Whether the lock is held elsewhere.
    pub held: bool,
    /// The error.
    pub error: std::io::Error,
}

impl LockRefusal {
    /// Interprets the error code of a failed attempt to lock a file.
    ///
    /// Which codes say that the lock is held is up to the operating system.
    pub fn new(code: i32) -> (refusal: Self)
        requires
            0 < code < 4096,
        ensures
            refusal.error == os_error(code),
            says_held(code, refusal.held),
    {
        let would_block: i32 = would_block_code();
        let again: i32 = again_code();
        let held = lock_is_held(code, would_block, again);
        LockRefusal { held, error: error_of_code(code) }
    }
}

/// A code says that a lock is held just where it is one of two codes that the
/// operating system has for that, and an error has a kind that the operating system
/// gives it.
proof fn system_decides(code: i32, held: bool, error: std::io::Error, kind: ErrorKind)
    ensures
        says_held(code, held) <==> exists|would_block: i32, again: i32|
            {
                &&& #[trigger] call_ensures(would_block_code, (), would_block)
                &&& #[trigger] call_ensures(again_code, (), again)
                &&& held <==> code == would_block || code == again
            },
        of_kind(error, kind) <==> call_ensures(error_kind, (&error,), kind),
{
}

} // verus!
