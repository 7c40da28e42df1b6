//! Sending and receiving of bytes and file descriptors over a stream socket.

use crate::socket::os::{self, ErrorKind, IoFailure};
use crate::wire::tx::Content;
use std::collections::VecDeque;
use vstd::prelude::*;

verus! {

/// Maximum number of FDs that can be sent/received in a single message.
///
/// Taken from libwayland.
pub const MAX_FDS_OUT: usize = 28;

/// How many messages it takes to send that many FDs.
pub open spec fn fd_chunks(fds: nat) -> nat {
    (fds + MAX_FDS_OUT as nat - 1) as nat / MAX_FDS_OUT as nat
}

/// Whether there is a byte for every chunk of FDs to piggyback on.
pub open spec fn enough_bytes<Fd>(content: Content<Fd>) -> bool {
    content.bytes.len() >= fd_chunks(content.fds.len())
}

/// Whether the FDs, if there are any, have a byte to piggyback on.
pub open spec fn carried<Fd>(content: Content<Fd>) -> bool {
    content.fds.len() > 0 ==> content.bytes.len() > 0
}

/// Whether the content can be sent in a single message: FDs must piggyback on at
/// least one byte, and there must not be too many.
pub open spec fn sendable<Fd>(content: Content<Fd>) -> bool {
    &&& carried(content)
    &&& content.fds.len() <= MAX_FDS_OUT
}

/// What is left to be sent.
#[verifier::ext_equal]
pub struct Pending<Fd> {
    /// The bytes and FDs that were not sent yet.
    pub content: Content<Fd>,
    /// Whether no more FDs are to be attached.
    pub fds_done: bool,
}

impl<Fd> Pending<Fd> {
    /// The start of sending all of `content`.
    pub open spec fn all(content: Content<Fd>) -> Self {
        Pending { content, fds_done: false }
    }

    /// Whether what is left can be sent.
    pub open spec fn valid(self) -> bool {
        if self.fds_done {
            self.content.fds.len() == 0
        } else {
            enough_bytes(self.content)
        }
    }

    /// Whether everything was sent.
    pub open spec fn complete(self) -> bool {
        self.fds_done && self.content.bytes.len() == 0
    }

    /// What to offer to the socket next: as long as there are more FDs than fit
    /// one message, a full set of FDs with a single byte; then the rest, and
    /// after that the bytes that the socket did not take.
    pub open spec fn offer(self) -> Content<Fd> {
        if self.content.fds.len() > MAX_FDS_OUT {
            Content {
                bytes: self.content.bytes.take(1),
                fds: self.content.fds.take(MAX_FDS_OUT as int),
            }
        } else {
            self.content
        }
    }

    /// What is left once the socket took `count` bytes of the offer, and with
    /// them all of its FDs.
    pub open spec fn after(self, count: nat) -> Self {
        Pending {
            content: Content {
                bytes: self.content.bytes.skip(count as int),
                fds: self.content.fds.skip(self.offer().fds.len() as int),
            },
            fds_done: self.content.fds.len() <= MAX_FDS_OUT,
        }
    }

    /// What was sent when the socket took `count` bytes of the offer.
    pub open spec fn sent(self, count: nat) -> Content<Fd> {
        Content { bytes: self.offer().bytes.take(count as int), fds: self.offer().fds }
    }
}

/// Sends all bytes and FDs to completion.
#[derive(Debug)]
pub struct SendAll<'a, Fd> {
    bytes: &'a [u8],
    fds: &'a [Fd],
    fds_done: bool,
}

impl<'a, Fd> View for SendAll<'a, Fd> {
    type V = Pending<Fd>;

    closed spec fn view(&self) -> Pending<Fd> {
        Pending {
            content: Content { bytes: self.bytes@, fds: self.fds@ },
            fds_done: self.fds_done,
        }
    }
}

impl<'a, Fd> SendAll<'a, Fd> {
    /// What to offer to the socket next, or `None` where everything was sent.
    pub fn offer(&self) -> (offer: Option<(&'a [u8], &'a [Fd])>)
        requires
            self@.valid(),
        ensures
            match offer {
                Some((bytes, fds)) => {
                    &&& !self@.complete()
                    &&& bytes@ == self@.offer().bytes
                    &&& fds@ == self@.offer().fds
                    &&& sendable(self@.offer())
                },
                None => self@.complete(),
            },
    {
        if self.fds.len() > MAX_FDS_OUT {
            // FDs must piggyback on at least 1 byte. Drain them in chunks of MAX_FDS_OUT,
            // each carried by a single byte.
            Some((&self.bytes[0..1], &self.fds[0..MAX_FDS_OUT]))
        } else if self.fds_done && self.bytes.len() == 0 {
            None
        } else {
            // At most MAX_FDS_OUT FDs remain; send as many bytes as possible.
            Some((self.bytes, self.fds))
        }
    }

    /// Takes note that the socket took `count` bytes of the offer.
    pub fn advance(&mut self, count: usize)
        requires
            old(self)@.valid(),
            !old(self)@.complete(),
            count <= old(self)@.offer().bytes.len(),
        ensures
            final(self)@ == old(self)@.after(count as nat),
            final(self)@.valid(),
    {
        let fds: usize = if self.fds.len() > MAX_FDS_OUT {
            MAX_FDS_OUT
        } else {
            self.fds_done = true;
            self.fds.len()
        };
        self.bytes = &self.bytes[count..self.bytes.len()];
        self.fds = &self.fds[fds..self.fds.len()];
    }
}

/// What is left after the socket took the given numbers of bytes, one offer
/// after the other.
pub open spec fn left<Fd>(start: Pending<Fd>, counts: Seq<nat>) -> Pending<Fd>
    decreases counts.len(),
{
    if counts.len() == 0 {
        start
    } else {
        left(start, counts.drop_last()).after(counts.last())
    }
}

/// What was sent when the socket took the given numbers of bytes.
pub open spec fn delivered<Fd>(start: Pending<Fd>, counts: Seq<nat>) -> Content<Fd>
    decreases counts.len(),
{
    if counts.len() == 0 {
        Content::empty()
    } else {
        delivered(start, counts.drop_last()).with(
            left(start, counts.drop_last()).sent(counts.last()),
        )
    }
}

/// Whether no offer was made once everything was sent, and the socket never took
/// more bytes than were offered.
pub open spec fn plausible<Fd>(start: Pending<Fd>, counts: Seq<nat>) -> bool
    decreases counts.len(),
{
    counts.len() > 0 ==> {
        &&& plausible(start, counts.drop_last())
        &&& !left(start, counts.drop_last()).complete()
        &&& counts.last() <= left(start, counts.drop_last()).offer().bytes.len()
    }
}

/// Nothing is lost, repeated or reordered: what was sent, followed by what is
/// left, is what there was to send. What is left can still be sent, and every
/// offer can be sent in a single message.
pub proof fn sending_keeps_content<Fd>(start: Pending<Fd>, counts: Seq<nat>)
    requires
        start.valid(),
        plausible(start, counts),
    ensures
        delivered(start, counts).with(left(start, counts).content) == start.content,
        left(start, counts).valid(),
        sendable(left(start, counts).offer()),
    decreases counts.len(),
{
    if counts.len() == 0 {
        assert(Content::<Fd>::empty().with(start.content) =~= start.content);
    } else {
        let before = left(start, counts.drop_last());
        let count = counts.last();
        sending_keeps_content(start, counts.drop_last());
        assert(before.sent(count).with(before.after(count).content) =~= before.content);
        assert(delivered(start, counts).with(left(start, counts).content) =~= delivered(
            start,
            counts.drop_last(),
        ).with(before.content));
    }
}

/// When sending is complete, exactly the given bytes and FDs were sent, in order.
pub proof fn complete_sending_delivers_all<Fd>(content: Content<Fd>, counts: Seq<nat>)
    requires
        enough_bytes(content),
        plausible(Pending::all(content), counts),
        left(Pending::all(content), counts).complete(),
    ensures
        delivered(Pending::all(content), counts) == content,
{
    let start = Pending::all(content);
    sending_keeps_content(start, counts);
    assert(delivered(start, counts).with(left(start, counts).content) =~= delivered(start, counts));
}

/// How many more offers it takes at most, when the socket takes some byte of
/// each: one for every byte, and one where there is nothing to send at all.
pub open spec fn offers_left<Fd>(pending: Pending<Fd>) -> nat {
    if !pending.fds_done && pending.content.bytes.len() == 0 {
        1
    } else {
        pending.content.bytes.len()
    }
}

/// Sending comes to an end when the socket takes some byte of each offer that
/// has any.
pub proof fn sending_ends<Fd>(start: Pending<Fd>, counts: Seq<nat>)
    requires
        start.valid(),
        plausible(start, counts),
        forall|i: int|
            #![trigger counts[i]]
            0 <= i < counts.len() ==> counts[i] > 0 || left(
                start,
                counts.take(i),
            ).offer().bytes.len() == 0,
    ensures
        counts.len() + offers_left(left(start, counts)) <= offers_left(start),
    decreases counts.len(),
{
    if counts.len() > 0 {
        let prefix = counts.drop_last();
        assert forall|i: int| #![trigger prefix[i]] 0 <= i < prefix.len() implies prefix[i] > 0
            || left(start, prefix.take(i)).offer().bytes.len() == 0 by {
            assert(prefix[i] == counts[i]);
            assert(prefix.take(i) =~= counts.take(i));
        }
        sending_ends(start, prefix);
        sending_keeps_content(start, prefix);
        sending_keeps_content(start, counts);
        assert(counts.take(counts.len() - 1) =~= prefix);
        assert(counts[counts.len() - 1] == counts.last());
    }
}

/// From start to end, no more offers are made than there are bytes, but for the
/// one offer that is made where there are none, when the socket takes some byte
/// of each offer that has any.
pub proof fn offers_are_bounded_by_bytes<Fd>(content: Content<Fd>, counts: Seq<nat>)
    requires
        enough_bytes(content),
        plausible(Pending::all(content), counts),
        forall|i: int|
            #![trigger counts[i]]
            0 <= i < counts.len() ==> counts[i] > 0 || left(
                Pending::all(content),
                counts.take(i),
            ).offer().bytes.len() == 0,
    ensures
        counts.len() <= (if content.bytes.len() == 0 {
            1
        } else {
            content.bytes.len()
        }),
{
    sending_ends(Pending::all(content), counts);
}

/// Checks that there is a byte for every chunk of FDs.
pub fn has_enough_bytes<Fd>(bytes: &[u8], fds: &[Fd]) -> (enough: bool)
    ensures
        enough == enough_bytes(Content { bytes: bytes@, fds: fds@ }),
        enough == (fds@.len() <= MAX_FDS_OUT * bytes@.len()),
{
    let full: usize = fds.len() / MAX_FDS_OUT;
    if fds.len() % MAX_FDS_OUT == 0 {
        bytes.len() >= full
    } else {
        bytes.len() > full
    }
}

/// Checks that the FDs, if there are any, have a byte to piggyback on.
pub fn are_carried<Fd>(bytes: &[u8], fds: &[Fd]) -> (fine: bool)
    ensures
        fine == carried(Content { bytes: bytes@, fds: fds@ }),
        fine == (fds@.len() == 0 || bytes@.len() > 0),
{
    fds.len() == 0 || bytes.len() > 0
}

/// Checks that there are not too many FDs for a single message.
pub fn fit_message<Fd>(fds: &[Fd]) -> (fine: bool)
    ensures
        fine == (fds@.len() <= MAX_FDS_OUT),
{
    fds.len() <= MAX_FDS_OUT
}

/// Checks that there is room to receive into.
pub fn has_room(bytes: &[u8]) -> (room: bool)
    ensures
        room == (bytes@.len() > 0),
{
    bytes.len() > 0
}

/// A call that sends a single message.
#[derive(Debug, Clone, Copy, PartialEq, Eq, Structural)]
pub enum SendCall {
    /// Send the bytes, with the FDs in an ancillary message.
    WithFds,
    /// Send the bytes alone.
    BytesOnly,
}

/// An ancillary message that came with received bytes.
#[derive(Debug)]
pub enum AncillaryMessage<Fd> {
    /// File descriptors.
    Rights(Vec<Fd>),
    /// Anything else.
    Other,
}

/// What a single message brought.
#[derive(Debug)]
pub struct Received<Fd> {
    /// The number of bytes.
    pub bytes: usize,
    /// The ancillary messages.
    pub messages: Vec<AncillaryMessage<Fd>>,
}

/// The FDs in ancillary messages, in order.
pub open spec fn received_fds<Fd>(messages: Seq<AncillaryMessage<Fd>>) -> Seq<Fd>
    decreases messages.len(),
{
    if messages.len() == 0 {
        Seq::empty()
    } else {
        received_fds(messages.drop_last()) + match messages.last() {
            AncillaryMessage::Rights(fds) => fds@,
            AncillaryMessage::Other => Seq::empty(),
        }
    }
}

/// A transfer of bytes that waits until the socket is ready, and is attempted
/// anew where the socket turns out not to be.
#[derive(Debug)]
pub enum Transfer {
    /// The socket is to become ready.
    Wait,
    /// The transfer is to be attempted.
    Attempt,
    /// The transfer has come to an end.
    Done(Result<usize, std::io::Error>),
}

/// What follows from the outcome of waiting for the socket.
pub open spec fn after_waiting(outcome: Result<(), std::io::Error>) -> Transfer {
    match outcome {
        Ok(_) => Transfer::Attempt,
        Err(error) => Transfer::Done(Err(error)),
    }
}

/// What follows from the outcome of an attempt: the socket not being ready leads
/// back to waiting, anything else is the result.
pub open spec fn after_attempt(outcome: Result<usize, IoFailure>) -> Transfer {
    match outcome {
        Ok(count) => Transfer::Done(Ok(count)),
        Err(failure) => if failure.kind == ErrorKind::WouldBlock {
            Transfer::Wait
        } else {
            Transfer::Done(Err(failure.error))
        },
    }
}

impl Transfer {
    /// Takes note of the outcome of waiting for the socket.
    pub fn ready(self, outcome: Result<(), std::io::Error>) -> (next: Self)
        requires
            self is Wait,
        ensures
            next == after_waiting(outcome),
    {
        match outcome {
            Ok(()) => Transfer::Attempt,
            Err(error) => Transfer::Done(Err(error)),
        }
    }

    /// Takes note of the outcome of an attempt.
    ///
    /// Whether an error says that the socket is not ready is up to its kind.
    pub fn attempted(self, outcome: Result<usize, std::io::Error>) -> (next: Self)
        requires
            self is Attempt,
        ensures
            match outcome {
                Ok(count) => next == Transfer::Done(Ok(count)),
                Err(error) => next == Transfer::Wait || next == Transfer::Done(Err(error)),
            },
            outcome matches Err(error) ==> exists|kind: ErrorKind| #[trigger]
                os::of_kind(error, kind) && next == (if kind == ErrorKind::WouldBlock {
                    Transfer::Wait
                } else {
                    Transfer::Done(Err(error))
                }),
    {
        match outcome {
            Ok(count) => self.attempted_with_kind(Ok(count)),
            Err(error) => self.attempted_with_kind(Err(IoFailure::new(error))),
        }
    }

    /// Takes note of the outcome of an attempt, given the kind of the error.
    pub fn attempted_with_kind(self, outcome: Result<usize, IoFailure>) -> (next: Self)
        requires
            self is Attempt,
        ensures
            next == after_attempt(outcome),
    {
        match outcome {
            Ok(count) => Transfer::Done(Ok(count)),
            Err(failure) => if failure.kind == ErrorKind::WouldBlock {
                Transfer::Wait
            } else {
                Transfer::Done(Err(failure.error))
            },
        }
    }
}

/// What came of waiting for the socket and then attempting the transfer.
pub struct Round {
    /// The outcome of waiting.
    pub waited: Result<(), std::io::Error>,
    /// The outcome of the attempt, which is made where waiting did not fail.
    pub attempted: Result<usize, IoFailure>,
}

impl Round {
    /// What follows from the round.
    pub open spec fn outcome(self) -> Transfer {
        match after_waiting(self.waited) {
            Transfer::Attempt => after_attempt(self.attempted),
            other => other,
        }
    }
}

/// What a transfer comes to when the rounds go as given.
pub open spec fn transfer(rounds: Seq<Round>) -> Transfer
    decreases rounds.len(),
{
    if rounds.len() == 0 {
        Transfer::Wait
    } else {
        match rounds.first().outcome() {
            Transfer::Wait => transfer(rounds.drop_first()),
            other => other,
        }
    }
}

/// A transfer absorbs every `WouldBlock`: it waits again after each round that
/// ends in one, and the first other round decides the result. An error that it
/// ends with is not a `WouldBlock`, unless waiting itself failed.
pub proof fn transfer_absorbs_would_block(rounds: Seq<Round>, first: int)
    requires
        0 <= first <= rounds.len(),
        forall|i: int|
            0 <= i < first ==> {
                &&& (#[trigger] rounds[i]).waited is Ok
                &&& rounds[i].attempted matches Err(failure)
                &&& failure.kind == ErrorKind::WouldBlock
            },
        first < rounds.len() ==> {
            ||| rounds[first].waited is Err
            ||| rounds[first].attempted is Ok
            ||| rounds[first].attempted->Err_0.kind != ErrorKind::WouldBlock
        },
    ensures
        first == rounds.len() ==> transfer(rounds) == Transfer::Wait,
        first < rounds.len() ==> transfer(rounds) == Transfer::Done(
            match (rounds[first].waited, rounds[first].attempted) {
                (Err(error), _) => Err(error),
                (Ok(_), Ok(count)) => Ok(count),
                (Ok(_), Err(failure)) => Err(failure.error),
            },
        ),
    decreases rounds.len(),
{
    if first > 0 {
        assert(rounds[0].waited is Ok);
        let rest = rounds.drop_first();
        assert forall|i: int| 0 <= i < first - 1 implies {
            &&& (#[trigger] rest[i]).waited is Ok
            &&& rest[i].attempted matches Err(failure)
            &&& failure.kind == ErrorKind::WouldBlock
        } by {
            assert(rounds[i + 1].waited is Ok);
        }
        transfer_absorbs_would_block(rest, first - 1);
    }
}

/// FDs that come with several messages are received in the order of the messages.
pub proof fn received_fds_keep_order<Fd>(
    earlier: Seq<AncillaryMessage<Fd>>,
    later: Seq<AncillaryMessage<Fd>>,
)
    ensures
        received_fds(earlier + later) == received_fds(earlier) + received_fds(later),
    decreases later.len(),
{
    if later.len() == 0 {
        assert(earlier + later =~= earlier);
    } else {
        received_fds_keep_order(earlier, later.drop_last());
        assert((earlier + later).drop_last() =~= earlier + later.drop_last());
        assert((earlier + later).last() == later.last());
    }
    assert(received_fds(earlier + later) =~= received_fds(earlier) + received_fds(later));
}

/// A Wayland connection over a stream.
#[derive(Debug)]
pub struct Connection<Stream>(Stream);

impl<Stream> Connection<Stream> {
    /// The stream.
    pub closed spec fn view(&self) -> Stream {
        self.0
    }

    /// The stream.
    pub fn stream(&self) -> (stream: &Stream)
        ensures
            *stream == self@,
    {
        &self.0
    }

    /// Sends all `bytes` and `fds` to completion.
    ///
    /// # Invariants
    ///
    /// `bytes.len() >= fds.len().div_ceil(MAX_FDS_OUT)` should hold to ensure
    /// every FD chunk has at least one byte to piggyback on.
    pub fn send_all<'a, Fd>(&self, bytes: &'a [u8], fds: &'a [Fd]) -> (sending: SendAll<'a, Fd>)
        requires
            enough_bytes(Content { bytes: bytes@, fds: fds@ }),
        ensures
            sending@ == Pending::all(Content { bytes: bytes@, fds: fds@ }),
            sending@.valid(),
    {
        SendAll { bytes, fds, fds_done: false }
    }

    /// Sends raw bytes and attached FDs once the socket is ready.
    ///
    /// The transfer absorbs any `WouldBlock` error: it ends only once data is
    /// sent or a fatal I/O error occurs.
    pub fn send(&self) -> (transfer: Transfer)
        ensures
            transfer == Transfer::Wait,
    {
        Transfer::Wait
    }

    /// Receives a byte stream and extracts attached FDs once the socket is ready.
    ///
    /// The transfer absorbs any `WouldBlock` error: it ends only once data is
    /// read, EOF is reached, or a fatal I/O error occurs.
    pub fn recv(&self) -> (transfer: Transfer)
        ensures
            transfer == Transfer::Wait,
    {
        Transfer::Wait
    }

    /// Attempts to send raw bytes and attached FDs in a non-blocking manner: says
    /// by which call.
    ///
    /// # Invariants
    ///
    /// - `bytes` must not be empty if `fds` is non-empty: FDs must piggyback on at
    ///   least one byte to be reliably delivered.
    /// - `fds.len()` must not exceed `MAX_FDS_OUT`.
    pub fn try_send<Fd>(&self, bytes: &[u8], fds: &[Fd]) -> (call: SendCall)
        requires
            sendable(Content { bytes: bytes@, fds: fds@ }),
        ensures
            call == (if fds@.len() > 0 {
                SendCall::WithFds
            } else {
                SendCall::BytesOnly
            }),
    {
        if fds.len() > 0 {
            SendCall::WithFds
        } else {
            SendCall::BytesOnly
        }
    }

    /// Attempts to receive a byte stream and extract attached FDs in a
    /// non-blocking manner: takes note of what a single message brought into
    /// `bytes`.
    ///
    /// Returns the number of bytes read. Any received FDs are appended to the
    /// back of `fds`.
    ///
    /// # Invariants
    ///
    /// `bytes` must not be empty: see `has_room`.
    #[allow(unused_variables)]
    pub fn try_recv<Fd>(
        &self,
        bytes: &[u8],
        outcome: Result<Received<Fd>, std::io::Error>,
        fds: &mut VecDeque<Fd>,
    ) -> (count: Result<usize, std::io::Error>)
        requires
            bytes@.len() > 0,
        ensures
            match outcome {
                Ok(received) => {
                    &&& count == Ok::<usize, std::io::Error>(received.bytes)
                    &&& final(fds)@ == old(fds)@ + received_fds(received.messages@)
                },
                Err(error) => {
                    &&& count == Err::<usize, std::io::Error>(error)
                    &&& final(fds)@ == old(fds)@
                },
            },
    {
        let received = match outcome {
            Ok(received) => received,
            Err(error) => return Err(error),
        };
        let ghost messages = received.messages@;
        let count: usize = received.bytes;
        for message in iter: received.messages
            invariant
                iter.seq() == messages,
                fds@ == old(fds)@ + received_fds(messages.take(iter.index())),
        {
            let ghost index = iter.index();
            let ghost before = fds@;
            assert(messages.take(index + 1).drop_last() =~= messages.take(index));
            if let AncillaryMessage::Rights(rights) = message {
                for fd in inner: rights
                    invariant
                        inner.seq() == rights@,
                        fds@ == before + rights@.take(inner.index()),
                {
                    fds.push_back(fd);
                    assert(rights@.take(inner.index() + 1) =~= rights@.take(inner.index()).push(
                        fd,
                    ));
                }
                assert(rights@.take(rights@.len() as int) =~= rights@);
            }
        }
        assert(messages.take(messages.len() as int) =~= messages);
        Ok(count)
    }
}

impl<Stream> From<Stream> for Connection<Stream> {
    fn from(stream: Stream) -> (connection: Self)
        ensures
            connection@ == stream,
    {
        Connection(stream)
    }
}

impl<Stream> vstd::std_specs::convert::FromSpecImpl<Stream> for Connection<Stream> {
    open spec fn obeys_from_spec() -> bool {
        true
    }

    closed spec fn from_spec(stream: Stream) -> Self {
        Connection(stream)
    }
}

/// There is a byte for every chunk of FDs just where the bytes, at `MAX_FDS_OUT`
/// FDs each, could carry all of the FDs.
pub proof fn bytes_are_enough_to_carry_fds<Fd>(content: Content<Fd>)
    ensures
        enough_bytes(content) <==> content.fds.len() <= MAX_FDS_OUT * content.bytes.len(),
{
}

/// A message can carry FDs up to `MAX_FDS_OUT`, and needs a byte where it carries
/// any.
pub proof fn message_carries_limited_fds<Fd>(content: Content<Fd>)
    ensures
        carried(content) <==> content.fds.len() == 0 || content.bytes.len() > 0,
        sendable(content) <==> content.fds.len() <= MAX_FDS_OUT && (content.fds.len() == 0
            || content.bytes.len() > 0),
{
}

/// No byte goes ahead of FDs that are left. Every offer carries the first
/// `MAX_FDS_OUT` of them, or all where there are fewer, and these are gone once the
/// offer was made. All bytes are offered together with the last FDs; before that, the
/// first byte alone.
pub proof fn offer_takes_fds_along<Fd>(pending: Pending<Fd>, count: nat)
    requires
        count <= pending.content.bytes.len(),
    ensures
        pending.offer().fds == pending.content.fds.take(
            if pending.content.fds.len() <= MAX_FDS_OUT {
                pending.content.fds.len() as int
            } else {
                MAX_FDS_OUT as int
            },
        ),
        pending.content.fds.len() <= MAX_FDS_OUT ==> {
            &&& pending.offer().bytes == pending.content.bytes
            &&& pending.after(count).content.fds.len() == 0
        },
        pending.content.fds.len() > MAX_FDS_OUT && pending.content.bytes.len() > 0 ==> {
            pending.offer().bytes == seq![pending.content.bytes[0]]
        },
        pending.offer().fds + pending.after(count).content.fds == pending.content.fds,
        pending.content.bytes.take(count as int) + pending.after(count).content.bytes
            == pending.content.bytes,
{
    let fds = pending.content.fds;
    if fds.len() <= MAX_FDS_OUT {
        assert(fds.take(fds.len() as int) =~= fds);
    } else if pending.content.bytes.len() > 0 {
        assert(pending.content.bytes.take(1) =~= seq![pending.content.bytes[0]]);
    }
    assert(pending.offer().fds + pending.after(count).content.fds =~= fds);
    assert(pending.content.bytes.take(count as int) + pending.after(count).content.bytes
        =~= pending.content.bytes);
}

/// Sending starts with everything to be sent and with an offer to make, even where
/// there is nothing. It is complete once no FDs were left for after an offer and the
/// socket took all of the bytes, and never before.
pub proof fn sending_completes_with_last_byte<Fd>(
    content: Content<Fd>,
    pending: Pending<Fd>,
    count: nat,
)
    requires
        count <= pending.content.bytes.len(),
    ensures
        Pending::all(content).content == content,
        !Pending::all(content).complete(),
        pending.after(count).complete() <==> pending.content.fds.len() <= MAX_FDS_OUT && count
            == pending.content.bytes.len(),
{
}

/// However few bytes the socket takes, each offer carries the next `MAX_FDS_OUT`
/// FDs, until none is left.
pub proof fn fds_go_with_first_offers<Fd>(content: Content<Fd>, counts: Seq<nat>)
    ensures
        left(Pending::all(content), counts).content.fds == content.fds.skip(
            if content.fds.len() <= MAX_FDS_OUT * counts.len() {
                content.fds.len() as int
            } else {
                MAX_FDS_OUT * counts.len()
            },
        ),
    decreases counts.len(),
{
    if counts.len() == 0 {
        assert(content.fds.skip(0) =~= content.fds);
    } else {
        fds_go_with_first_offers(content, counts.drop_last());
        assert(left(Pending::all(content), counts).content.fds =~= content.fds.skip(
            if content.fds.len() <= MAX_FDS_OUT * counts.len() {
                content.fds.len() as int
            } else {
                MAX_FDS_OUT * counts.len()
            },
        ));
    }
}

/// All FDs of an ancillary message are received, and none where it holds no FDs.
pub proof fn every_fd_is_received<Fd>(rights: Vec<Fd>)
    ensures
        received_fds(Seq::<AncillaryMessage<Fd>>::empty()) == Seq::<Fd>::empty(),
        received_fds(seq![AncillaryMessage::Rights(rights)]) == rights@,
        received_fds(seq![AncillaryMessage::<Fd>::Other]) == Seq::<Fd>::empty(),
{
    reveal_with_fuel(received_fds, 2);
    assert(seq![AncillaryMessage::Rights(rights)].drop_last() =~= Seq::empty());
    assert(seq![AncillaryMessage::<Fd>::Other].drop_last() =~= Seq::empty());
    assert(Seq::<Fd>::empty() + rights@ =~= rights@);
}

/// What is received are the FDs of all ancillary messages that hold any, one message
/// after the other and each with its FDs in order.
pub proof fn received_fds_are_those_of_messages<Fd>(messages: Seq<AncillaryMessage<Fd>>)
    ensures
        received_fds(messages) == Seq::new(
            messages.len(),
            |i: int|
                match messages[i] {
                    AncillaryMessage::Rights(rights) => rights@,
                    AncillaryMessage::Other => Seq::empty(),
                },
        ).flatten(),
    decreases messages.len(),
{
    let fds = |messages: Seq<AncillaryMessage<Fd>>, i: int|
        match messages[i] {
            AncillaryMessage::Rights(rights) => rights@,
            AncillaryMessage::Other => Seq::empty(),
        };
    let all = Seq::new(messages.len(), |i: int| fds(messages, i));
    assert(all =~= Seq::new(
        messages.len(),
        |i: int|
            match messages[i] {
                AncillaryMessage::Rights(rights) => rights@,
                AncillaryMessage::Other => Seq::empty(),
            },
    ));
    if messages.len() > 0 {
        let before = messages.drop_last();
        received_fds_are_those_of_messages(before);
        let fewer = Seq::new(before.len(), |i: int| fds(before, i));
        assert(fewer =~= Seq::new(
            before.len(),
            |i: int|
                match before[i] {
                    AncillaryMessage::Rights(rights) => rights@,
                    AncillaryMessage::Other => Seq::empty(),
                },
        ));
        let last = fds(messages, messages.len() - 1);
        assert(all =~= fewer.push(last));
        fewer.lemma_flatten_push(last);
    }
}

/// A socket that is ready is followed by an attempt, and an attempt by another wait
/// just where it would have blocked. Anything else is handed on as it came.
pub proof fn outcomes_are_handed_on(
    waited: Result<(), std::io::Error>,
    attempted: Result<usize, IoFailure>,
)
    ensures
        waited is Ok <==> after_waiting(waited) == Transfer::Attempt,
        waited matches Err(error) ==> after_waiting(waited) == Transfer::Done(Err(error)),
        after_attempt(attempted) == Transfer::Wait <==> (attempted matches Err(failure)
            && failure.kind == ErrorKind::WouldBlock),
        attempted matches Ok(count) ==> after_attempt(attempted) == Transfer::Done(Ok(count)),
        attempted matches Err(failure) ==> after_attempt(attempted) == Transfer::Wait
            || after_attempt(attempted) == Transfer::Done(Err(failure.error)),
{
}

} // verus!
