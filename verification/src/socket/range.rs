//! Binding of one of several numbered sockets.

use crate::socket::acceptor::{Acceptor, AcceptorError};
use crate::socket::binding::{Binding, Stage, Target};
use crate::socket::path;
use vstd::prelude::*;

verus! {

/// Binding of the first socket that is free among numbered candidates.
#[derive(Debug)]
pub struct RangeBinding {
    directory: Vec<u8>,
    basename: String,
}

/// What to do after the attempt at a candidate.
#[derive(Debug)]
pub enum Search<T> {
    /// Try the next candidate.
    Continue,
    /// Return.
    Done(Result<T, AcceptorError>),
}

/// What to do after an attempt: a socket in use is passed over, anything else is
/// the result.
pub open spec fn verdict<T>(outcome: Result<T, AcceptorError>) -> Search<T> {
    if outcome matches Err(AcceptorError::SocketInUse) {
        Search::Continue
    } else {
        Search::Done(outcome)
    }
}

impl RangeBinding {
    /// The directory of the sockets.
    pub closed spec fn directory(&self) -> Seq<u8> {
        self.directory@
    }

    /// What the names of the sockets start with.
    pub closed spec fn basename(&self) -> Seq<char> {
        self.basename@
    }

    /// The start of a search.
    pub(crate) fn start(directory: Vec<u8>, basename: String) -> (range: Self)
        ensures
            range.directory() == directory@,
            range.basename() == basename@,
    {
        RangeBinding { directory, basename }
    }

    /// The attempt at the candidate with the given number, or the error where no
    /// number is left.
    pub fn candidate<Listener, Lock>(&self, index: Option<usize>) -> (attempt: Result<
        Binding<Listener, Lock>,
        AcceptorError,
    >)
        ensures
            match (attempt, index) {
                (Ok(binding), Some(index)) => {
                    &&& binding.stage() == Stage::<Listener, Lock>::Open
                    &&& binding.target() == Target::within(
                        self.directory(),
                        path::numbered(self.basename(), index as nat),
                    )
                },
                (Err(AcceptorError::NoAvailableSocket), None) => true,
                _ => false,
            },
    {
        match index {
            Some(index) => {
                let name = path::candidate_name(self.basename.as_str(), index);
                Ok(Acceptor::bind(self.directory.as_slice(), name.as_str()))
            },
            None => Err(AcceptorError::NoAvailableSocket),
        }
    }

    /// What to do after the attempt at a candidate.
    pub fn judge<T>(&self, outcome: Result<T, AcceptorError>) -> (search: Search<T>)
        ensures
            search == verdict(outcome),
    {
        match outcome {
            // Lock is in use, try next candidate.
            Err(AcceptorError::SocketInUse) => Search::Continue,
            // Successfully bound to a socket, or other errors: return.
            outcome => Search::Done(outcome),
        }
    }
}

/// What the attempts at candidates come to, when they go as `outcomes` says.
pub open spec fn search<T>(outcomes: Seq<Result<T, AcceptorError>>) -> Search<T>
    decreases outcomes.len(),
{
    if outcomes.len() == 0 {
        Search::Continue
    } else {
        match verdict(outcomes.first()) {
            Search::Continue => search(outcomes.drop_first()),
            done => done,
        }
    }
}

/// What the search ends with when there are no candidates but those tried.
pub open spec fn search_result<T>(outcomes: Seq<Result<T, AcceptorError>>) -> Result<
    T,
    AcceptorError,
> {
    match search(outcomes) {
        Search::Continue => Err(AcceptorError::NoAvailableSocket),
        Search::Done(result) => result,
    }
}

/// The result is the outcome of the first attempt at a socket that is not in
/// use, a failure too, whatever would come after it.
pub proof fn first_free_candidate_decides<T>(outcomes: Seq<Result<T, AcceptorError>>, first: int)
    requires
        0 <= first < outcomes.len(),
        forall|i: int|
            0 <= i < first ==> #[trigger] outcomes[i] == Err::<T, AcceptorError>(
                AcceptorError::SocketInUse,
            ),
        outcomes[first] != Err::<T, AcceptorError>(AcceptorError::SocketInUse),
    ensures
        search(outcomes) == Search::Done(outcomes[first]),
        search_result(outcomes) == outcomes[first],
    decreases first,
{
    if first > 0 {
        assert(outcomes[0] == Err::<T, AcceptorError>(AcceptorError::SocketInUse));
        let rest = outcomes.drop_first();
        assert forall|i: int| 0 <= i < first - 1 implies #[trigger] rest[i] == Err::<
            T,
            AcceptorError,
        >(AcceptorError::SocketInUse) by {
            assert(outcomes[i + 1] == Err::<T, AcceptorError>(AcceptorError::SocketInUse));
        }
        first_free_candidate_decides(rest, first - 1);
    }
}

/// The search goes on as long as every socket is in use, and finds none
/// available where no candidate is left.
pub proof fn search_passes_over_used_sockets<T>(outcomes: Seq<Result<T, AcceptorError>>)
    requires
        forall|i: int|
            0 <= i < outcomes.len() ==> #[trigger] outcomes[i] == Err::<T, AcceptorError>(
                AcceptorError::SocketInUse,
            ),
    ensures
        search(outcomes) == Search::<T>::Continue,
        search_result(outcomes) == Err::<T, AcceptorError>(AcceptorError::NoAvailableSocket),
    decreases outcomes.len(),
{
    if outcomes.len() > 0 {
        assert(outcomes[0] == Err::<T, AcceptorError>(AcceptorError::SocketInUse));
        let rest = outcomes.drop_first();
        assert forall|i: int| 0 <= i < rest.len() implies #[trigger] rest[i] == Err::<
            T,
            AcceptorError,
        >(AcceptorError::SocketInUse) by {
            assert(outcomes[i + 1] == Err::<T, AcceptorError>(AcceptorError::SocketInUse));
        }
        search_passes_over_used_sockets(rest);
    }
}

/// A search goes on after a socket that is in use and after nothing else: it ends
/// with any other outcome, as it came.
pub proof fn only_used_sockets_are_passed_over<T>(outcome: Result<T, AcceptorError>)
    ensures
        verdict(outcome) == Search::<T>::Continue <==> outcome == Err::<T, AcceptorError>(
            AcceptorError::SocketInUse,
        ),
        outcome == Err::<T, AcceptorError>(AcceptorError::SocketInUse) || verdict(outcome)
            == Search::Done(outcome),
{
}

} // verus!
