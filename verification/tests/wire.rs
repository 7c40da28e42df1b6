use wayland_io::wire::tx::{Buffer, Encoder, Message};
use wayland_io::wire::MAX_MESSAGE_SIZE;

struct Empty;

impl Message<u32> for Empty {
    const OPCODE: u16 = 7;

    fn encode(self, _encoder: &mut Encoder<u32>) {}
}

struct Numbers {
    int: i32,
    uint: u32,
    fixed: i32,
    object: u32,
    new_id: u32,
}

impl Message<u32> for Numbers {
    const OPCODE: u16 = 0xfffe;

    fn encode(self, encoder: &mut Encoder<u32>) {
        encoder.encode_int(self.int);
        encoder.encode_uint(self.uint);
        encoder.encode_fixed(self.fixed);
        encoder.encode_object(self.object);
        encoder.encode_new_id(self.new_id);
    }
}

struct Text(&'static str);

impl Message<u32> for Text {
    const OPCODE: u16 = 1;

    fn encode(self, encoder: &mut Encoder<u32>) {
        encoder.encode_string(self.0);
    }
}

struct Array(Vec<u8>);

impl Message<u32> for Array {
    const OPCODE: u16 = 2;

    fn encode(self, encoder: &mut Encoder<u32>) {
        encoder.encode_array(&self.0);
    }
}

struct Descriptors(u32, u32);

impl Message<u32> for Descriptors {
    const OPCODE: u16 = 3;

    fn encode(self, encoder: &mut Encoder<u32>) {
        encoder.encode_fd(self.0);
        encoder.encode_uint(5);
        encoder.encode_fd(self.1);
    }
}

/// Writes down what the encoder holds.
struct Peek<'a>(&'a mut Vec<String>);

impl Message<u32> for Peek<'_> {
    const OPCODE: u16 = 4;

    fn encode(self, encoder: &mut Encoder<u32>) {
        self.0.push(format!("{:?}", encoder));
        encoder.encode_uint(6);
    }
}

fn words(list: &[u32]) -> Vec<u8> {
    list.iter().flat_map(|word| word.to_ne_bytes()).collect()
}

/// The object ID, opcode and arguments of each message in a stream.
fn read(mut stream: &[u8]) -> Vec<(u32, u16, Vec<u8>)> {
    let mut messages = Vec::new();
    while !stream.is_empty() {
        let word = |at: usize| {
            u32::from_ne_bytes([stream[at], stream[at + 1], stream[at + 2], stream[at + 3]])
        };
        let size = (word(4) >> 16) as usize;
        messages.push((word(0), word(4) as u16, stream[8..size].to_vec()));
        stream = &stream[size..];
    }
    messages
}

#[test]
fn new_buffer_is_empty() {
    let buffer: Buffer<u32> = Buffer::new();
    assert_eq!(buffer.as_raw_parts(), (&[][..], &[][..]));
    let buffer: Buffer<u32> = Buffer::default();
    assert_eq!(buffer.as_raw_parts(), (&[][..], &[][..]));
}

#[test]
fn header_holds_object_opcode_and_size() {
    let mut buffer = Buffer::new();
    buffer.push_message(0x0102_0304, Empty);
    let (bytes, fds) = buffer.as_raw_parts();
    assert_eq!(bytes, &words(&[0x0102_0304, 8 << 16 | 7])[..]);
    assert!(fds.is_empty());
}

#[test]
fn words_are_in_the_byte_order_of_the_host() {
    let mut buffer = Buffer::new();
    buffer.push_message(0x0102_0304, Empty);
    let (bytes, _) = buffer.as_raw_parts();
    let order = if 1u16.to_ne_bytes() == [1, 0] { [4, 3, 2, 1] } else { [1, 2, 3, 4] };
    assert_eq!(bytes[..4], order);
}

#[test]
fn numbers_are_words() {
    let mut buffer = Buffer::new();
    buffer.push_message(
        1,
        Numbers { int: -2, uint: 0xdead_beef, fixed: -384, object: 9, new_id: u32::MAX },
    );
    let (bytes, _) = buffer.as_raw_parts();
    assert_eq!(
        bytes,
        &words(&[
            1,
            28 << 16 | 0xfffe,
            0xffff_fffe,
            0xdead_beef,
            0xffff_fe80,
            9,
            0xffff_ffff,
        ])[..]
    );
}

#[test]
fn int_extremes() {
    let mut buffer = Buffer::new();
    for int in [i32::MIN, -1, 0, 1, i32::MAX] {
        buffer.clear();
        buffer.push_message(1, Numbers { int, uint: 0, fixed: int, object: 0, new_id: 0 });
        let (bytes, _) = buffer.as_raw_parts();
        assert_eq!(bytes[8..12], int.to_ne_bytes());
        assert_eq!(bytes[16..20], int.to_ne_bytes());
    }
}

#[test]
fn strings_end_in_nul_and_fill_words() {
    let mut buffer = Buffer::new();
    buffer.push_message(1, Text("abc"));
    let (bytes, _) = buffer.as_raw_parts();
    let mut expected = words(&[1, 16 << 16 | 1, 4]);
    expected.extend_from_slice(b"abc\0");
    assert_eq!(bytes, &expected[..]);

    buffer.clear();
    buffer.push_message(1, Text("wl_\u{e9}"));
    let (bytes, _) = buffer.as_raw_parts();
    let mut expected = words(&[1, 20 << 16 | 1, 6]);
    expected.extend_from_slice(b"wl_\xc3\xa9\0\0\0");
    assert_eq!(bytes, &expected[..]);

    buffer.clear();
    buffer.push_message(1, Text(""));
    let (bytes, _) = buffer.as_raw_parts();
    assert_eq!(bytes[8..], [&words(&[1])[..], &[0, 0, 0, 0]].concat());
}

#[test]
fn arrays_fill_words() {
    let mut buffer = Buffer::new();
    for (array, padded) in [
        (vec![], vec![]),
        (vec![1], vec![1, 0, 0, 0]),
        (vec![1, 2, 3, 4], vec![1, 2, 3, 4]),
        (vec![1, 2, 3, 4, 5, 6], vec![1, 2, 3, 4, 5, 6, 0, 0]),
    ] {
        buffer.clear();
        let len = array.len() as u32;
        buffer.push_message(1, Array(array));
        let (bytes, _) = buffer.as_raw_parts();
        assert_eq!(bytes.len() % 4, 0);
        assert_eq!(bytes[8..12], len.to_ne_bytes());
        assert_eq!(bytes[12..], padded[..]);
    }
}

#[test]
fn descriptors_keep_their_order_and_take_no_bytes() {
    let mut buffer = Buffer::new();
    buffer.push_message(1, Descriptors(10, 11));
    buffer.push_message(2, Descriptors(12, 13));
    let (bytes, fds) = buffer.as_raw_parts();
    assert_eq!(bytes, &words(&[1, 12 << 16 | 3, 5, 2, 12 << 16 | 3, 5])[..]);
    assert_eq!(fds, &[10, 11, 12, 13]);
}

#[test]
fn messages_read_back() {
    let mut buffer = Buffer::new();
    buffer.push_message(3, Text("hello"));
    buffer.push_message(4, Empty);
    buffer.push_message(5, Array(vec![9; 40]));
    let (bytes, _) = buffer.as_raw_parts();
    let messages = read(bytes);
    assert_eq!(messages.len(), 3);
    assert_eq!((messages[0].0, messages[0].1), (3, 1));
    assert_eq!(messages[0].2, [&words(&[6])[..], b"hello\0\0\0"].concat());
    assert_eq!(messages[1], (4, 7, vec![]));
    assert_eq!((messages[2].0, messages[2].1), (5, 2));
    assert_eq!(messages[2].2, [words(&[40]), vec![9; 40]].concat());
}

#[test]
fn arguments_are_encoded_behind_the_reserved_header() {
    let mut buffer = Buffer::new();
    buffer.push_message(1, Descriptors(10, 11));
    let mut seen = Vec::new();
    buffer.push_message(2, Peek(&mut seen));
    let held = words(&[1, 12 << 16 | 3, 5, 2, 0]);
    assert_eq!(seen, [format!("Encoder(Buffer {{ bytes: {:?}, fds: [10, 11] }})", held)]);
    let (bytes, fds) = buffer.as_raw_parts();
    assert_eq!(bytes, &words(&[1, 12 << 16 | 3, 5, 2, 12 << 16 | 4, 6])[..]);
    assert_eq!(fds, &[10, 11]);
}

#[test]
fn largest_message_has_its_size() {
    let mut buffer = Buffer::new();
    buffer.push_message(1, Array(vec![1; MAX_MESSAGE_SIZE - 12]));
    let (bytes, _) = buffer.as_raw_parts();
    assert_eq!(bytes.len(), 4096);
    assert_eq!(bytes[4..8], (4096u32 << 16 | 2).to_ne_bytes());
}

#[test]
fn size_has_sixteen_bits() {
    let mut buffer = Buffer::new();
    buffer.push_message(1, Array(vec![1; 65536]));
    let (bytes, _) = buffer.as_raw_parts();
    assert_eq!(bytes.len(), 65548);
    assert_eq!(bytes[4..8], (12u32 << 16 | 2).to_ne_bytes());
}

#[test]
fn clear_drops_everything() {
    let mut buffer = Buffer::new();
    buffer.push_message(1, Descriptors(10, 11));
    buffer.clear();
    assert_eq!(buffer.as_raw_parts(), (&[][..], &[][..]));
}

#[test]
fn reached_buffers_hold_whole_messages() {
    let mut buffer = Buffer::new();
    buffer.push_message(1, Text("a"));
    buffer.clear();
    buffer.push_message(2, Text("ab"));
    buffer.push_message(3, Array(vec![1, 2, 3, 4, 5]));
    buffer.push_message(4, Descriptors(1, 2));
    let (bytes, _) = buffer.as_raw_parts();
    assert_eq!(bytes.len() % 4, 0);
    let messages = read(bytes);
    assert_eq!(messages.iter().map(|m| m.0).collect::<Vec<u32>>(), [2, 3, 4]);
    assert!(messages.iter().all(|m| m.2.len() % 4 == 0));
}
