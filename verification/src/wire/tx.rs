//! Encoding of outgoing messages.

use crate::wire::layout;
use vstd::prelude::*;

verus! {

/// Bytes and file descriptors that travel together.
#[verifier::ext_equal]
pub struct Content<Fd> {
    /// The bytes.
    pub bytes: Seq<u8>,
    /// The file descriptors.
    pub fds: Seq<Fd>,
}

impl<Fd> Content<Fd> {
    /// No bytes and no file descriptors.
    pub open spec fn empty() -> Self {
        Content { bytes: Seq::empty(), fds: Seq::empty() }
    }

    /// Whether the bytes are a whole number of words.
    pub open spec fn fills_words(self) -> bool {
        self.bytes.len() % 4 == 0
    }

    /// The content with `bytes` at the end.
    pub open spec fn with_bytes(self, bytes: Seq<u8>) -> Self {
        Content { bytes: self.bytes + bytes, fds: self.fds }
    }

    /// The content with `fd` at the end.
    pub open spec fn with_fd(self, fd: Fd) -> Self {
        Content { bytes: self.bytes, fds: self.fds.push(fd) }
    }

    /// The content with a header at the end whose Word 1 is zero.
    pub open spec fn with_reserved_header(self, object_id: u32) -> Self {
        self.with_bytes(layout::word_bytes(object_id) + seq![0u8, 0u8, 0u8, 0u8])
    }

    /// The content with all of `more` at the end.
    pub open spec fn with(self, more: Self) -> Self {
        Content { bytes: self.bytes + more.bytes, fds: self.fds + more.fds }
    }

    /// The content with a message at the end.
    pub open spec fn with_message(self, object_id: u32, opcode: u16, args: Self) -> Self {
        Content {
            bytes: self.bytes + layout::message_bytes(object_id, opcode, args.bytes),
            fds: self.fds + args.fds,
        }
    }
}

/// A Wayland message that can be encoded into the wire format.
///
/// `Fd` is the type of the file descriptors that the message may carry.
pub trait Message<Fd>: Sized {
    /// The operation code of the message.
    const OPCODE: u16;

    /// Whether `args` is what encoding the arguments of this message may add to an
    /// encoder that holds `before`. Unless an implementation says which, it may be
    /// any.
    open spec fn encodes_to(self, before: Content<Fd>, args: Content<Fd>) -> bool {
        true
    }

    /// Encodes the message arguments.
    ///
    /// What was encoded before stays, and the arguments fill whole words. This is
    /// proved of an implementation that is verified. The methods of an encoder only
    /// add to it, and only whole words at a time, so it also holds of any other that
    /// calls these methods and does not put another encoder in the place of this one.
    fn encode(self, encoder: &mut Encoder<Fd>)
        ensures
            exists|args: Content<Fd>| #[trigger]
                self.encodes_to(old(encoder)@, args) && args.fills_words() && final(encoder)@
                    == old(encoder)@.with(args),
    ;
}

/// `u32::to_ne_bytes`: the memory representation of the word, in the byte order
/// of the host.
#[verifier::external_body]
fn to_ne_bytes(word: u32) -> (bytes: [u8; 4])
    ensures
        bytes@ == layout::word_bytes(word),
{
    word.to_ne_bytes()
}

/// An encoder for Wayland message arguments.
///
/// Its methods only add to what has been encoded before. That nothing else happens to
/// it while a message is encoded is part of the contract of `Message::encode`, which
/// holds of implementations that are verified.
#[derive(Debug)]
pub struct Encoder<Fd>(Buffer<Fd>);

impl<Fd> View for Encoder<Fd> {
    type V = Content<Fd>;

    closed spec fn view(&self) -> Content<Fd> {
        self.0@
    }
}

impl<Fd> Encoder<Fd> {
    /// Encodes a 32-bit signed integer argument.
    pub fn encode_int(&mut self, value: i32)
        ensures
            final(self)@ == old(self)@.with_bytes(layout::word_bytes(layout::int_word(value))),
    {
        assert(value < 0 ==> value as u32 == value + 0x1_0000_0000) by (bit_vector);
        self.0.push_word(value as u32);
    }

    /// Encodes a 32-bit unsigned integer argument.
    pub fn encode_uint(&mut self, value: u32)
        ensures
            final(self)@ == old(self)@.with_bytes(layout::word_bytes(value)),
    {
        self.0.push_word(value);
    }

    /// Encodes a fixed-point number argument, given as the number of 256ths.
    ///
    /// Wayland uses a 24.8 signed fixed-point format.
    pub fn encode_fixed(&mut self, fixed: i32)
        ensures
            final(self)@ == old(self)@.with_bytes(layout::word_bytes(layout::int_word(fixed))),
    {
        self.encode_int(fixed);
    }

    /// Encodes an object ID argument.
    pub fn encode_object(&mut self, id: u32)
        ensures
            final(self)@ == old(self)@.with_bytes(layout::word_bytes(id)),
    {
        self.0.push_word(id);
    }

    /// Encodes a new object ID argument.
    pub fn encode_new_id(&mut self, id: u32)
        ensures
            final(self)@ == old(self)@.with_bytes(layout::word_bytes(id)),
    {
        self.0.push_word(id);
    }

    /// Encodes a string argument.
    ///
    /// The text is followed by a NUL byte, which the length counts. A NUL byte in
    /// the text is written as it is.
    pub fn encode_string(&mut self, s: &str)
        ensures
            final(self)@ == old(self)@.with_bytes(
                layout::string_bytes(vstd::utf8::encode_utf8(s@)),
            ),
    {
        let mut contents: Vec<u8> = Vec::new();
        contents.extend_from_slice(s.as_bytes());
        contents.push(0u8);
        assert(contents@ =~= vstd::utf8::encode_utf8(s@).push(0u8));
        self.encode_array(contents.as_slice());
    }

    /// Encodes an array argument.
    pub fn encode_array(&mut self, array: &[u8])
        ensures
            final(self)@ == old(self)@.with_bytes(layout::array_bytes(array@)),
    {
        let len: usize = array.len();
        let wide: u64 = len as u64;
        assert(wide as u32 == wide % 0x1_0000_0000) by (bit_vector);
        self.0.push_word(wide as u32);
        self.0.bytes.extend_from_slice(array);
        let ghost unpadded = self.0.bytes@;
        assert(unpadded =~= old(self)@.bytes + layout::word_bytes(
            (wide % 0x1_0000_0000) as u32,
        ) + array@);
        let count: usize = (4 - len % 4) % 4;
        let mut done: usize = 0;
        while done < count
            invariant
                done <= count,
                self.0.bytes@ == unpadded + Seq::new(done as nat, |i: int| 0u8),
                self.0.fds@ == old(self).0.fds@,
            decreases count - done,
        {
            self.0.bytes.push(0u8);
            done += 1;
            assert(self.0.bytes@ =~= unpadded + Seq::new(done as nat, |i: int| 0u8));
        }
        assert(self@.bytes =~= old(self)@.bytes + layout::array_bytes(array@));
    }

    /// Encodes a file descriptor argument.
    pub fn encode_fd(&mut self, fd: Fd)
        ensures
            final(self)@ == old(self)@.with_fd(fd),
    {
        self.0.fds.push(fd);
    }
}

/// A buffer for constructing Wayland messages to be sent over the wire.
///
/// It always holds whole words: see `reached_buffer_holds_whole_messages`.
#[derive(Debug)]
pub struct Buffer<Fd> {
    /// The outgoing bytes.
    bytes: Vec<u8>,
    /// The outgoing FDs.
    fds: Vec<Fd>,
}

impl<Fd> View for Buffer<Fd> {
    type V = Content<Fd>;

    closed spec fn view(&self) -> Content<Fd> {
        Content { bytes: self.bytes@, fds: self.fds@ }
    }
}

impl<Fd> Default for Buffer<Fd> {
    fn default() -> (buffer: Self)
        ensures
            buffer@ == Content::<Fd>::empty(),
    {
        Self::new()
    }
}

impl<Fd> Buffer<Fd> {
    /// Creates an empty buffer.
    pub fn new() -> (buffer: Self)
        ensures
            buffer@ == Content::<Fd>::empty(),
    {
        Buffer { bytes: Vec::new(), fds: Vec::new() }
    }

    /// Pushes a message into the buffer.
    ///
    /// The arguments are encoded behind what the buffer held and a header whose
    /// Word 1 is still zero. The size in the header holds the lower 16 bits of the message's size.
    pub fn push_message<M>(&mut self, object_id: u32, msg: M) where M: Message<Fd>
        ensures
            exists|args: Content<Fd>| #[trigger]
                msg.encodes_to(old(self)@.with_reserved_header(object_id), args)
                    && args.fills_words() && final(self)@ == old(self)@.with_message(
                    object_id,
                    M::OPCODE,
                    args,
                ),
            old(self)@.fills_words() ==> final(self)@.fills_words(),
    {
        // Record the starting offset of the message.
        let msg_start: usize = self.bytes.len();

        // Push the header with Word 1 (opcode and size) reserved, to be backfilled later.
        self.push_header_reserved(object_id);
        let ghost reserved = self@;

        // Push arguments. The encoder holds the contents of the buffer meanwhile.
        let mut encoder = Encoder(Buffer::new());
        std::mem::swap(&mut encoder.0, self);
        msg.encode(&mut encoder);
        std::mem::swap(&mut encoder.0, self);
        let ghost args = choose|args: Content<Fd>| #[trigger]
            msg.encodes_to(reserved, args) && args.fills_words() && self@ == reserved.with(args);
        proof {
            layout::word_reads_back(object_id);
        }

        // Calculate the message size.
        let len: usize = self.bytes.len() - msg_start;
        assert(len as u16 == len % 0x1_0000) by (bit_vector);
        let size = len as u16;

        // Backfill Word 1 in the header.
        self.backfill_header(msg_start, M::OPCODE, size);
        assert(self@ =~= old(self)@.with_message(object_id, M::OPCODE, args)) by {
            layout::word_reads_back(layout::size_word(M::OPCODE, len as nat));
            assert(len == layout::HEADER_SIZE + args.bytes.len());
        }
        proof {
            layout::message_len(object_id, M::OPCODE, args.bytes);
        }
    }

    /// Returns the raw byte and FD buffers for flushing.
    pub fn as_raw_parts(&self) -> (parts: (&[u8], &[Fd]))
        ensures
            parts.0@ == self@.bytes,
            parts.1@ == self@.fds,
    {
        (self.bytes.as_slice(), self.fds.as_slice())
    }

    /// Clears the buffer.
    pub fn clear(&mut self)
        ensures
            final(self)@ == Content::<Fd>::empty(),
    {
        self.bytes.clear();
        self.fds.clear();
    }

    /// Pushes a word in the byte order of the host.
    fn push_word(&mut self, word: u32)
        ensures
            final(self)@ == old(self)@.with_bytes(layout::word_bytes(word)),
    {
        let bytes = to_ne_bytes(word);
        self.bytes.extend_from_slice(&bytes);
        assert(self.bytes@ =~= old(self).bytes@ + layout::word_bytes(word));
    }

    /// Pushes a header whose Word 1 is zero.
    fn push_header_reserved(&mut self, object_id: u32)
        ensures
            final(self)@ == old(self)@.with_reserved_header(object_id),
    {
        // Populate the first 4 bytes with Word 0 (Object ID).
        self.push_word(object_id);

        // The last 4 bytes are reserved for Word 1 (opcode & size).
        self.bytes.extend_from_slice(&[0u8, 0u8, 0u8, 0u8]);
        assert(self.bytes@ =~= old(self).bytes@ + (layout::word_bytes(object_id) + seq![
            0u8,
            0u8,
            0u8,
            0u8,
        ]));
    }

    /// Sets Word 1 of the header that starts at `msg_start`.
    fn backfill_header(&mut self, msg_start: usize, opcode: u16, size: u16)
        requires
            msg_start + layout::HEADER_SIZE <= old(self)@.bytes.len(),
        ensures
            final(self)@ == (Content {
                bytes: old(self)@.bytes.take(msg_start + 4) + layout::word_bytes(
                    layout::size_word(opcode, size as nat),
                ) + old(self)@.bytes.skip(msg_start + 8),
                fds: old(self)@.fds,
            }),
    {
        // Word 1: size occupies the upper 16 bits, opcode the lower 16 bits.
        assert(((size as u32) << 16) | (opcode as u32) == size * 0x1_0000 + opcode) by (bit_vector);
        let word1: u32 = ((size as u32) << 16) | (opcode as u32);

        // Backfill the reserved Word 1 with the combined opcode and size.
        let bytes = to_ne_bytes(word1);
        assert(msg_start + layout::HEADER_SIZE <= self.bytes.len());
        self.bytes[msg_start + 4] = bytes[0];
        self.bytes[msg_start + 5] = bytes[1];
        self.bytes[msg_start + 6] = bytes[2];
        self.bytes[msg_start + 7] = bytes[3];
        proof {
            layout::word_reads_back(word1);
        }
        assert(self.bytes@ =~= old(self).bytes@.take(msg_start + 4) + bytes@ + old(
            self,
        ).bytes@.skip(msg_start + 8));
    }
}

/// A buffer that holds a stream of whole messages still does once another
/// message is pushed, and the new message is the last one.
pub proof fn pushed_message_extends_stream<Fd>(
    before: Content<Fd>,
    frames: Seq<layout::Frame>,
    object_id: u32,
    opcode: u16,
    args: Content<Fd>,
)
    requires
        before.bytes == layout::stream_bytes(frames),
    ensures
        before.with_message(object_id, opcode, args).bytes == layout::stream_bytes(
            frames.push(layout::Frame { object_id, opcode, args: args.bytes }),
        ),
        layout::stream_bytes(Seq::empty()) == Content::<Fd>::empty().bytes,
{
    layout::stream_grows(frames, layout::Frame { object_id, opcode, args: args.bytes });
}

/// A change to a buffer.
pub enum Change<Fd> {
    /// A message is pushed.
    Push {
        /// The object that the message is about.
        object_id: u32,
        /// The operation.
        opcode: u16,
        /// The encoded arguments.
        args: Content<Fd>,
    },
    /// The buffer is cleared.
    Clear,
}

/// What a new buffer holds after the given changes.
pub open spec fn content_after<Fd>(changes: Seq<Change<Fd>>) -> Content<Fd>
    decreases changes.len(),
{
    if changes.len() == 0 {
        Content::empty()
    } else {
        match changes.last() {
            Change::Push { object_id, opcode, args } => content_after(
                changes.drop_last(),
            ).with_message(object_id, opcode, args),
            Change::Clear => Content::empty(),
        }
    }
}

/// The messages that were pushed since the last time that the buffer was cleared.
pub open spec fn frames_after<Fd>(changes: Seq<Change<Fd>>) -> Seq<layout::Frame>
    decreases changes.len(),
{
    if changes.len() == 0 {
        Seq::empty()
    } else {
        match changes.last() {
            Change::Push { object_id, opcode, args } => frames_after(changes.drop_last()).push(
                layout::Frame { object_id, opcode, args: args.bytes },
            ),
            Change::Clear => Seq::empty(),
        }
    }
}

/// Whether the arguments of each message that is pushed fill whole words, as
/// those of every message do.
pub open spec fn pushes_fill_words<Fd>(changes: Seq<Change<Fd>>) -> bool {
    forall|i: int|
        0 <= i < changes.len() ==> (#[trigger] changes[i] matches Change::Push { args, .. }
            ==> args.fills_words())
}

/// However a buffer was reached, it holds whole words, and just the messages that
/// were pushed since it was last cleared, each with a header at least and of a
/// whole number of words.
pub proof fn reached_buffer_holds_whole_messages<Fd>(changes: Seq<Change<Fd>>)
    requires
        pushes_fill_words(changes),
    ensures
        content_after(changes).fills_words(),
        content_after(changes).bytes == layout::stream_bytes(frames_after(changes)),
        forall|i: int|
            0 <= i < frames_after(changes).len() ==> {
                &&& (#[trigger] frames_after(changes)[i]).bytes().len() >= layout::HEADER_SIZE
                &&& frames_after(changes)[i].bytes().len() % 4 == 0
            },
    decreases changes.len(),
{
    if changes.len() > 0 {
        let before = changes.drop_last();
        assert forall|i: int| 0 <= i < before.len() implies (#[trigger] before[i] matches
            Change::Push { args, .. } ==> args.fills_words()) by {
            assert(before[i] == changes[i]);
        }
        reached_buffer_holds_whole_messages(before);
        assert(changes[changes.len() - 1] == changes.last());
        match changes.last() {
            Change::Push { object_id, opcode, args } => {
                pushed_message_extends_stream(
                    content_after(before),
                    frames_after(before),
                    object_id,
                    opcode,
                    args,
                );
                layout::message_len(object_id, opcode, args.bytes);
            },
            Change::Clear => {},
        }
    }
}

/// Where the sizes fit the headers, a receiver that goes from header to header
/// through a buffer, however it was reached, finds the messages that were pushed
/// since it was last cleared, and comes out at the end.
pub proof fn reached_buffer_reads_back<Fd>(changes: Seq<Change<Fd>>)
    requires
        pushes_fill_words(changes),
        forall|i: int|
            0 <= i < frames_after(changes).len() ==> (#[trigger] frames_after(changes)[i]).fits(),
    ensures
        layout::read_stream(content_after(changes).bytes) == Some(frames_after(changes)),
{
    reached_buffer_holds_whole_messages(changes);
    layout::stream_reads_back(frames_after(changes));
}

/// What is added to a content comes after what is there, bytes after bytes and
/// FDs after FDs, and nothing else changes.
pub proof fn added_content_comes_last<Fd>(
    before: Content<Fd>,
    bytes: Seq<u8>,
    fd: Fd,
    more: Content<Fd>,
)
    ensures
        before.with_bytes(bytes).bytes == before.bytes + bytes,
        before.with_bytes(bytes).fds == before.fds,
        before.with_fd(fd).bytes == before.bytes,
        before.with_fd(fd).fds == before.fds.push(fd),
        before.with(more).bytes == before.bytes + more.bytes,
        before.with(more).fds == before.fds + more.fds,
        Content::<Fd>::empty().bytes.len() == 0,
        Content::<Fd>::empty().fds.len() == 0,
        before.fills_words() <==> before.bytes.len() % 4 == 0,
{
}

/// A message that is pushed adds exactly its header, its arguments and its FDs:
/// what the buffer held stays in front, the header tells the object, the opcode
/// and the lower 16 bits of the size, and then come the arguments.
pub proof fn pushed_message_adds_itself<Fd>(
    before: Content<Fd>,
    object_id: u32,
    opcode: u16,
    args: Content<Fd>,
)
    ensures
        ({
            let after = before.with_message(object_id, opcode, args);
            let start = before.bytes.len() as int;
            let word = layout::read_word(after.bytes.subrange(start + 4, start + 8));
            &&& after.fds == before.fds + args.fds
            &&& after.bytes.len() == start + 8 + args.bytes.len()
            &&& after.bytes.take(start) == before.bytes
            &&& layout::read_word(after.bytes.subrange(start, start + 4)) == object_id
            &&& word % 0x1_0000 == opcode
            &&& word / 0x1_0000 == (8 + args.bytes.len()) % 0x1_0000
            &&& after.bytes.skip(start + 8) == args.bytes
        }),
{
    let message = layout::message_bytes(object_id, opcode, args.bytes);
    let after = before.with_message(object_id, opcode, args);
    let start = before.bytes.len() as int;
    layout::message_is_header_and_arguments(object_id, opcode, args.bytes);
    assert(after.bytes.take(start) =~= before.bytes);
    assert(after.bytes.subrange(start, start + 4) =~= message.subrange(0, 4));
    assert(after.bytes.subrange(start + 4, start + 8) =~= message.subrange(4, 8));
    assert(after.bytes.skip(start + 8) =~= message.skip(8));
}

/// Arguments are encoded behind what the buffer held, the object ID and four zero
/// bytes, with the FDs that the buffer held.
pub proof fn reserved_header_is_object_and_zeroes<Fd>(before: Content<Fd>, object_id: u32)
    ensures
        ({
            let reserved = before.with_reserved_header(object_id);
            let start = before.bytes.len() as int;
            &&& reserved.fds == before.fds
            &&& reserved.bytes.len() == start + 8
            &&& reserved.bytes.take(start) == before.bytes
            &&& layout::read_word(reserved.bytes.subrange(start, start + 4)) == object_id
            &&& forall|i: int|
                start + 4 <= i < start + 8 ==> #[trigger] reserved.bytes[i] == 0u8
        }),
{
    let reserved = before.with_reserved_header(object_id);
    let start = before.bytes.len() as int;
    layout::word_reads_back(object_id);
    assert(reserved.bytes.take(start) =~= before.bytes);
    assert(reserved.bytes.subrange(start, start + 4) =~= layout::word_bytes(object_id));
}

/// However a buffer was reached and cleared, its FDs are then those of the messages
/// that were pushed since, one message after the other and each with its FDs in
/// order.
pub proof fn reached_fds_are_those_pushed<Fd>(
    before: Seq<Change<Fd>>,
    ids: Seq<u32>,
    opcodes: Seq<u16>,
    args: Seq<Content<Fd>>,
)
    requires
        ids.len() == args.len(),
        opcodes.len() == args.len(),
    ensures
        content_after(
            before.push(Change::Clear) + Seq::new(
                args.len(),
                |i: int| Change::Push { object_id: ids[i], opcode: opcodes[i], args: args[i] },
            ),
        ).fds == Seq::new(args.len(), |i: int| args[i].fds).flatten(),
    decreases args.len(),
{
    let pushes = Seq::new(
        args.len(),
        |i: int| Change::Push { object_id: ids[i], opcode: opcodes[i], args: args[i] },
    );
    let changes = before.push(Change::Clear) + pushes;
    let fds = Seq::new(args.len(), |i: int| args[i].fds);
    if args.len() == 0 {
        assert(changes.last() == Change::<Fd>::Clear);
        assert(fds =~= Seq::empty());
    } else {
        let last = args.len() - 1;
        let fewer = Seq::new(
            last as nat,
            |i: int|
                Change::Push {
                    object_id: ids.drop_last()[i],
                    opcode: opcodes.drop_last()[i],
                    args: args.drop_last()[i],
                },
        );
        let fewer_fds = Seq::new(last as nat, |i: int| args.drop_last()[i].fds);
        reached_fds_are_those_pushed(
            before,
            ids.drop_last(),
            opcodes.drop_last(),
            args.drop_last(),
        );
        assert(changes.drop_last() =~= before.push(Change::Clear) + fewer);
        assert(changes.last() == pushes[last]);
        assert(fds =~= fewer_fds.push(args[last].fds));
        fewer_fds.lemma_flatten_push(args[last].fds);
        pushed_message_adds_itself(
            content_after(changes.drop_last()),
            ids[last],
            opcodes[last],
            args[last],
        );
    }
}

} // verus!
