//! What the words, arguments and messages of the wire format look like as bytes.

use vstd::prelude::*;

verus! {

/// The number of bytes in a message header: the object ID, then opcode and size.
pub const HEADER_SIZE: usize = 8;

/// The bytes of a 32-bit word, least significant byte first.
pub open spec fn low_first(word: u32) -> Seq<u8> {
    seq![
        (word % 256) as u8,
        (word / 256 % 256) as u8,
        (word / 65536 % 256) as u8,
        (word / 16777216) as u8,
    ]
}

/// The bytes of a 32-bit word, in the byte order of the host.
#[verifier::opaque]
pub open spec fn word_bytes(word: u32) -> Seq<u8> {
    match vstd::endian::endianness() {
        vstd::endian::Endian::Little => low_first(word),
        vstd::endian::Endian::Big => low_first(word).reverse(),
    }
}

/// The word that four bytes stand for, in the byte order of the host.
#[verifier::opaque]
pub open spec fn read_word(bytes: Seq<u8>) -> int {
    match vstd::endian::endianness() {
        vstd::endian::Endian::Little => {
            bytes[0] + 256 * bytes[1] + 65536 * bytes[2] + 16777216 * bytes[3]
        },
        vstd::endian::Endian::Big => {
            bytes[3] + 256 * bytes[2] + 65536 * bytes[1] + 16777216 * bytes[0]
        },
    }
}

/// The word that stands for a signed integer, in two's complement.
pub open spec fn int_word(value: i32) -> u32 {
    if value >= 0 {
        value as u32
    } else {
        (value + 0x1_0000_0000) as u32
    }
}

/// How many bytes of padding follow `len` bytes to reach a word boundary.
pub open spec fn padding(len: nat) -> nat {
    ((4 - len % 4) % 4) as nat
}

/// An array argument: the length as a word, the contents, and zeroes up to the
/// next word boundary.
pub open spec fn array_bytes(contents: Seq<u8>) -> Seq<u8> {
    word_bytes((contents.len() % 0x1_0000_0000) as u32) + contents + Seq::new(
        padding(contents.len()),
        |i: int| 0u8,
    )
}

/// A string argument: an array of the text with a terminating NUL byte.
pub open spec fn string_bytes(text: Seq<u8>) -> Seq<u8> {
    array_bytes(text.push(0u8))
}

/// The second word of a header: the size in the upper 16 bits, the opcode in
/// the lower ones.
pub open spec fn size_word(opcode: u16, size: nat) -> u32 {
    ((size % 0x1_0000) * 0x1_0000 + opcode) as u32
}

/// A message: the object ID, opcode and size, and the arguments.
pub open spec fn message_bytes(object_id: u32, opcode: u16, args: Seq<u8>) -> Seq<u8> {
    word_bytes(object_id) + word_bytes(size_word(opcode, HEADER_SIZE as nat + args.len())) + args
}

/// A word reads back as it was written, and takes four bytes.
pub proof fn word_reads_back(word: u32)
    ensures
        word_bytes(word).len() == 4,
        read_word(word_bytes(word)) == word,
{
    reveal(word_bytes);
    reveal(read_word);
    let bytes = low_first(word);
    assert(bytes.reverse()[0] == bytes[3]);
    assert(bytes.reverse()[1] == bytes[2]);
    assert(bytes.reverse()[2] == bytes[1]);
    assert(bytes.reverse()[3] == bytes[0]);
}

/// Different words have different bytes.
pub proof fn word_bytes_injective(a: u32, b: u32)
    requires
        word_bytes(a) == word_bytes(b),
    ensures
        a == b,
{
    word_reads_back(a);
    word_reads_back(b);
}

/// The size of a message.
pub proof fn message_len(object_id: u32, opcode: u16, args: Seq<u8>)
    ensures
        message_bytes(object_id, opcode, args).len() == HEADER_SIZE + args.len(),
{
    word_reads_back(object_id);
    word_reads_back(size_word(opcode, HEADER_SIZE as nat + args.len()));
}

/// A receiver of a message that is followed by anything else on the stream
/// reads the object ID and the opcode from its header, and from the size there
/// finds where the arguments and the message end.
///
/// The size has 16 bits, so this holds of messages under 65536 bytes.
pub proof fn message_reads_back(object_id: u32, opcode: u16, args: Seq<u8>, rest: Seq<u8>)
    requires
        HEADER_SIZE + args.len() < 0x1_0000,
    ensures
        ({
            let stream = message_bytes(object_id, opcode, args) + rest;
            let size = read_word(stream.subrange(4, 8)) / 0x1_0000;
            &&& read_word(stream.subrange(0, 4)) == object_id
            &&& read_word(stream.subrange(4, 8)) % 0x1_0000 == opcode
            &&& size == message_bytes(object_id, opcode, args).len()
            &&& stream.subrange(HEADER_SIZE as int, size) == args
            &&& stream.skip(size) == rest
        }),
{
    let word = size_word(opcode, HEADER_SIZE as nat + args.len());
    word_reads_back(object_id);
    word_reads_back(word);
    let message = message_bytes(object_id, opcode, args);
    let stream = message + rest;
    assert(stream.subrange(0, 4) =~= word_bytes(object_id));
    assert(stream.subrange(4, 8) =~= word_bytes(word));
    assert(word == (HEADER_SIZE + args.len()) * 0x1_0000 + opcode);
    let size = read_word(stream.subrange(4, 8)) / 0x1_0000;
    assert(size == HEADER_SIZE + args.len());
    assert(stream.subrange(HEADER_SIZE as int, size) =~= args);
    assert(stream.skip(size) =~= rest);
}

/// A message on a stream.
pub struct Frame {
    /// The object that the message is about.
    pub object_id: u32,
    /// The operation.
    pub opcode: u16,
    /// The encoded arguments.
    pub args: Seq<u8>,
}

impl Frame {
    /// The bytes of the message.
    pub open spec fn bytes(self) -> Seq<u8> {
        message_bytes(self.object_id, self.opcode, self.args)
    }

    /// Whether the size of the message fits the header.
    pub open spec fn fits(self) -> bool {
        HEADER_SIZE + self.args.len() < 0x1_0000
    }
}

/// A message within the limit of the protocol has a size that fits the header.
pub proof fn limited_message_fits(frame: Frame)
    requires
        frame.bytes().len() <= crate::wire::MAX_MESSAGE_SIZE,
    ensures
        frame.fits(),
{
    message_len(frame.object_id, frame.opcode, frame.args);
}

/// Messages one after the other.
pub open spec fn stream_bytes(frames: Seq<Frame>) -> Seq<u8>
    decreases frames.len(),
{
    if frames.len() == 0 {
        Seq::empty()
    } else {
        frames.first().bytes() + stream_bytes(frames.drop_first())
    }
}

/// The messages that a receiver finds in a stream by going from header to
/// header, or `None` where a header is cut off or its size is out of range.
pub open spec fn read_stream(stream: Seq<u8>) -> Option<Seq<Frame>>
    decreases stream.len(),
{
    let size = read_word(stream.subrange(4, 8)) / 0x1_0000;
    if stream.len() == 0 {
        Some(Seq::empty())
    } else if stream.len() < HEADER_SIZE || size < HEADER_SIZE || size > stream.len() {
        None
    } else {
        match read_stream(stream.skip(size)) {
            None => None,
            Some(frames) => Some(
                seq![
                    Frame {
                        object_id: read_word(stream.subrange(0, 4)) as u32,
                        opcode: (read_word(stream.subrange(4, 8)) % 0x1_0000) as u16,
                        args: stream.subrange(HEADER_SIZE as int, size),
                    },
                ] + frames,
            ),
        }
    }
}

/// A receiver finds in a stream the messages that were put there, in order.
pub proof fn stream_reads_back(frames: Seq<Frame>)
    requires
        forall|i: int| 0 <= i < frames.len() ==> (#[trigger] frames[i]).fits(),
    ensures
        read_stream(stream_bytes(frames)) == Some(frames),
    decreases frames.len(),
{
    if frames.len() > 0 {
        let frame = frames.first();
        let tail = frames.drop_first();
        let rest = stream_bytes(tail);
        assert(frames[0].fits());
        assert forall|i: int| 0 <= i < tail.len() implies (#[trigger] tail[i]).fits() by {
            assert(frames[i + 1].fits());
        }
        stream_reads_back(tail);
        message_reads_back(frame.object_id, frame.opcode, frame.args, rest);
        message_len(frame.object_id, frame.opcode, frame.args);
        assert(seq![frame] + tail =~= frames);
    }
}

/// A message that is put on a stream comes after those that are there.
pub proof fn stream_grows(frames: Seq<Frame>, frame: Frame)
    ensures
        stream_bytes(frames.push(frame)) == stream_bytes(frames) + frame.bytes(),
    decreases frames.len(),
{
    reveal_with_fuel(stream_bytes, 2);
    if frames.len() == 0 {
        assert(frames.push(frame).drop_first() =~= frames);
        assert(frames.push(frame).first() == frame);
        assert(stream_bytes(frames) + frame.bytes() =~= frame.bytes() + stream_bytes(frames));
    } else {
        stream_grows(frames.drop_first(), frame);
        assert(frames.push(frame).drop_first() =~= frames.drop_first().push(frame));
        assert(frames.push(frame).first() == frames.first());
        assert(stream_bytes(frames.push(frame)) =~= stream_bytes(frames) + frame.bytes());
    }
}

/// A receiver of an array argument that is followed by anything else reads its
/// length, and from that its contents and where the next argument starts.
pub proof fn array_reads_back(contents: Seq<u8>, rest: Seq<u8>)
    requires
        contents.len() < 0x1_0000_0000,
    ensures
        ({
            let stream = array_bytes(contents) + rest;
            let len = read_word(stream.subrange(0, 4));
            &&& len == contents.len()
            &&& stream.subrange(4, 4 + len) == contents
            &&& stream.skip(4 + len + padding(contents.len())) == rest
        }),
{
    word_reads_back(contents.len() as u32);
    let stream = array_bytes(contents) + rest;
    assert(stream.subrange(0, 4) =~= word_bytes(contents.len() as u32));
    let len: int = contents.len() as int;
    assert(stream.subrange(4, 4 + len) =~= contents);
    assert(stream.skip(4 + len + padding(contents.len())) =~= rest);
}

/// Every argument takes a whole number of words, and so does a message whose
/// arguments do.
pub proof fn arguments_fill_words(
    word: u32,
    contents: Seq<u8>,
    object_id: u32,
    opcode: u16,
    args: Seq<u8>,
)
    requires
        args.len() % 4 == 0,
    ensures
        word_bytes(word).len() % 4 == 0,
        array_bytes(contents).len() % 4 == 0,
        string_bytes(contents).len() % 4 == 0,
        message_bytes(object_id, opcode, args).len() % 4 == 0,
{
    word_reads_back(word);
    word_reads_back((contents.len() % 0x1_0000_0000) as u32);
    word_reads_back((contents.push(0u8).len() % 0x1_0000_0000) as u32);
    message_len(object_id, opcode, args);
}

/// A word is written as four bytes, the digits of the word to the base 256, and
/// the host says at which end the lowest one is.
pub proof fn word_has_digits_of_host(word: u32)
    ensures
        word_bytes(word).len() == 4,
        word == match vstd::endian::endianness() {
            vstd::endian::Endian::Little => word_bytes(word)[0] + 256 * word_bytes(word)[1] + 65536
                * word_bytes(word)[2] + 16777216 * word_bytes(word)[3],
            vstd::endian::Endian::Big => word_bytes(word)[3] + 256 * word_bytes(word)[2] + 65536
                * word_bytes(word)[1] + 16777216 * word_bytes(word)[0],
        },
{
    word_reads_back(word);
    reveal(read_word);
}

/// Any four bytes are read as the digits of a word to the base 256, and the host
/// says at which end the lowest one is. Written again, the word gives these bytes.
pub proof fn four_bytes_are_read_as_digits(bytes: Seq<u8>)
    requires
        bytes.len() == 4,
    ensures
        read_word(bytes) == match vstd::endian::endianness() {
            vstd::endian::Endian::Little => bytes[0] + 256 * bytes[1] + 65536 * bytes[2] + 16777216
                * bytes[3],
            vstd::endian::Endian::Big => bytes[3] + 256 * bytes[2] + 65536 * bytes[1] + 16777216
                * bytes[0],
        },
        0 <= read_word(bytes) < 0x1_0000_0000,
        word_bytes(read_word(bytes) as u32) == bytes,
{
    reveal(read_word);
    let word = read_word(bytes) as u32;
    let written = word_bytes(word);
    word_has_digits_of_host(word);
    match vstd::endian::endianness() {
        vstd::endian::Endian::Little => {
            digits_are_unique(
                written[0],
                written[1],
                written[2],
                written[3],
                bytes[0],
                bytes[1],
                bytes[2],
                bytes[3],
            );
        },
        vstd::endian::Endian::Big => {
            digits_are_unique(
                written[3],
                written[2],
                written[1],
                written[0],
                bytes[3],
                bytes[2],
                bytes[1],
                bytes[0],
            );
        },
    }
    assert(written =~= bytes);
}

/// Four digits to the base 256 are those of no other number.
proof fn digits_are_unique(a: u8, b: u8, c: u8, d: u8, e: u8, f: u8, g: u8, h: u8)
    by (bit_vector)
    requires
        a + 256 * b + 65536 * c + 16777216 * d == e + 256 * f + 65536 * g + 16777216 * h,
    ensures
        a == e,
        b == f,
        c == g,
        d == h,
{
}

/// A signed integer reads back in two's complement: a word from the upper half
/// of the range stands for what is left when 2^32 is taken off.
pub proof fn int_reads_back(value: i32)
    ensures
        value == (if int_word(value) < 0x8000_0000 {
            int_word(value) as int
        } else {
            int_word(value) - 0x1_0000_0000
        }),
        value == (if read_word(word_bytes(int_word(value))) < 0x8000_0000 {
            read_word(word_bytes(int_word(value)))
        } else {
            read_word(word_bytes(int_word(value))) - 0x1_0000_0000
        }),
{
    word_reads_back(int_word(value));
}

/// An array argument is its length, its contents and then nothing but zeroes, as
/// few as it takes to fill the last word. The length has 32 bits.
pub proof fn array_is_length_contents_and_zeroes(contents: Seq<u8>)
    ensures
        ({
            let bytes = array_bytes(contents);
            &&& read_word(bytes.take(4)) == contents.len() % 0x1_0000_0000
            &&& bytes.subrange(4, 4 + contents.len() as int) == contents
            &&& forall|i: int| 4 + contents.len() <= i < bytes.len() ==> #[trigger] bytes[i] == 0u8
            &&& bytes.len() % 4 == 0
            &&& 4 + contents.len() <= bytes.len() < 8 + contents.len()
        }),
{
    let word = (contents.len() % 0x1_0000_0000) as u32;
    let bytes = array_bytes(contents);
    word_reads_back(word);
    assert(bytes.take(4) =~= word_bytes(word));
    assert(bytes.subrange(4, 4 + contents.len() as int) =~= contents);
}

/// A string argument is its length, its text and then nothing but zeroes: the NUL
/// byte that the length counts, and as few as it takes to fill the last word.
pub proof fn string_is_length_text_and_zeroes(text: Seq<u8>)
    ensures
        ({
            let bytes = string_bytes(text);
            &&& read_word(bytes.take(4)) == (text.len() + 1) % 0x1_0000_0000
            &&& bytes.subrange(4, 4 + text.len() as int) == text
            &&& forall|i: int| 4 + text.len() <= i < bytes.len() ==> #[trigger] bytes[i] == 0u8
            &&& bytes.len() % 4 == 0
            &&& 5 + text.len() <= bytes.len() < 9 + text.len()
        }),
{
    array_is_length_contents_and_zeroes(text.push(0u8));
    text_comes_before_zeroes(string_bytes(text), text);
}

/// Where a text and a NUL byte are at the fourth byte and only zeroes come after
/// them, the text is there and only zeroes come after it.
proof fn text_comes_before_zeroes(bytes: Seq<u8>, text: Seq<u8>)
    requires
        bytes.len() >= 5 + text.len(),
        bytes.subrange(4, 5 + text.len() as int) == text.push(0u8),
        forall|i: int| 5 + text.len() <= i < bytes.len() ==> #[trigger] bytes[i] == 0u8,
    ensures
        bytes.subrange(4, 4 + text.len() as int) == text,
        forall|i: int| 4 + text.len() <= i < bytes.len() ==> #[trigger] bytes[i] == 0u8,
{
    let part = bytes.subrange(4, 5 + text.len() as int);
    assert(part[text.len() as int] == 0u8);
    assert forall|i: int| 0 <= i < text.len() implies bytes[i + 4] == text[i] by {
        assert(part[i] == text[i]);
    }
    assert(bytes.subrange(4, 4 + text.len() as int) =~= text);
}

/// A message of any size is the object ID, the opcode with the lower 16 bits of
/// the size above it, and the arguments as they were encoded.
pub proof fn message_is_header_and_arguments(object_id: u32, opcode: u16, args: Seq<u8>)
    ensures
        ({
            let bytes = message_bytes(object_id, opcode, args);
            &&& bytes.len() == 8 + args.len()
            &&& read_word(bytes.subrange(0, 4)) == object_id
            &&& read_word(bytes.subrange(4, 8)) % 0x1_0000 == opcode
            &&& read_word(bytes.subrange(4, 8)) / 0x1_0000 == bytes.len() % 0x1_0000
            &&& bytes.skip(8) == args
        }),
{
    let word = size_word(opcode, HEADER_SIZE as nat + args.len());
    let bytes = message_bytes(object_id, opcode, args);
    word_reads_back(object_id);
    word_reads_back(word);
    assert(bytes.subrange(0, 4) =~= word_bytes(object_id));
    assert(bytes.subrange(4, 8) =~= word_bytes(word));
    assert(bytes.skip(8) =~= args);
}

} // verus!
