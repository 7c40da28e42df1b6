use rustix::io::Errno;
use std::collections::VecDeque;
use std::io::Error;
use wayland_io::socket::connection::{
    are_carried, fit_message, has_enough_bytes, has_room, AncillaryMessage, Connection, Received,
    SendCall, Transfer, MAX_FDS_OUT,
};
use wayland_io::socket::os::{ErrorKind, IoFailure};

/// Sends everything over a socket that takes at most `limit` bytes at a time,
/// and returns what each message held.
fn send(bytes: &[u8], fds: &[u32], limit: usize) -> Vec<(Vec<u8>, Vec<u32>)> {
    assert!(has_enough_bytes(bytes, fds));
    let connection = Connection::from("stream");
    let mut sending = connection.send_all(bytes, fds);
    let mut messages = Vec::new();
    while let Some((bytes, fds)) = sending.offer() {
        assert!(are_carried(bytes, fds) && fit_message(fds));
        let count = bytes.len().min(limit);
        messages.push((bytes[..count].to_vec(), fds.to_vec()));
        sending.advance(count);
    }
    messages
}

#[test]
fn connection_keeps_its_stream() {
    assert_eq!(*Connection::from("stream").stream(), "stream");
}

#[test]
fn chunk_limit() {
    assert_eq!(MAX_FDS_OUT, 28);
}

#[test]
fn small_content_takes_one_message() {
    assert_eq!(send(b"hello", &[1, 2], 100), [(b"hello".to_vec(), vec![1, 2])]);
}

#[test]
fn nothing_takes_one_empty_message() {
    assert_eq!(send(b"", &[], 100), [(vec![], vec![])]);
}

#[test]
fn rest_of_the_bytes_goes_without_fds() {
    assert_eq!(
        send(b"abcde", &[1], 2),
        [
            (b"ab".to_vec(), vec![1]),
            (b"cd".to_vec(), vec![]),
            (b"e".to_vec(), vec![]),
        ]
    );
}

#[test]
fn many_fds_go_in_chunks_with_a_byte_each() {
    let fds: Vec<u32> = (0..60).collect();
    assert_eq!(
        send(b"abcdef", &fds, 100),
        [
            (b"a".to_vec(), (0..28).collect::<Vec<u32>>()),
            (b"b".to_vec(), (28..56).collect::<Vec<u32>>()),
            (b"cdef".to_vec(), (56..60).collect::<Vec<u32>>()),
        ]
    );
}

#[test]
fn exact_chunks_need_no_more_bytes() {
    let fds: Vec<u32> = (0..56).collect();
    assert_eq!(
        send(b"ab", &fds, 100),
        [
            (b"a".to_vec(), (0..28).collect::<Vec<u32>>()),
            (b"b".to_vec(), (28..56).collect::<Vec<u32>>()),
        ]
    );
}

#[test]
fn everything_is_delivered_in_order() {
    let bytes: Vec<u8> = (0..200).collect();
    let fds: Vec<u32> = (0..150).collect();
    for limit in [1, 3, 64, 1000] {
        let messages = send(&bytes, &fds, limit);
        let sent_bytes: Vec<u8> = messages.iter().flat_map(|m| m.0.clone()).collect();
        let sent_fds: Vec<u32> = messages.iter().flat_map(|m| m.1.clone()).collect();
        assert_eq!(sent_bytes, bytes);
        assert_eq!(sent_fds, fds);
        assert!(messages.len() <= bytes.len());
    }
}

#[test]
fn byte_that_was_not_taken_is_offered_again() {
    let fds: Vec<u32> = (0..29).collect();
    let connection = Connection::from(());
    let mut sending = connection.send_all(b"ab", &fds);
    assert_eq!(sending.offer(), Some((&b"a"[..], &fds[..28])));
    sending.advance(0);
    assert_eq!(sending.offer(), Some((&b"ab"[..], &fds[28..])));
    sending.advance(1);
    assert_eq!(sending.offer(), Some((&b"b"[..], &fds[29..])));
    sending.advance(0);
    assert_eq!(sending.offer(), Some((&b"b"[..], &fds[29..])));
    sending.advance(1);
    assert_eq!(sending.offer(), None);
}

#[test]
fn enough_bytes_for_fd_chunks() {
    let fds = vec![0u32; 57];
    assert!(has_enough_bytes(&[], &fds[..0]));
    assert!(!has_enough_bytes(&[], &fds[..1]));
    assert!(has_enough_bytes(&[0], &fds[..28]));
    assert!(!has_enough_bytes(&[0], &fds[..29]));
    assert!(has_enough_bytes(&[0, 0], &fds[..56]));
    assert!(!has_enough_bytes(&[0, 0], &fds));
    assert!(has_enough_bytes(&[0, 0, 0], &fds));
}

#[test]
fn no_more_messages_than_bytes() {
    let fds: Vec<u32> = (0..84).collect();
    assert_eq!(send(b"abc", &fds, 1).len(), 3);
    assert_eq!(send(b"abcde", &fds, 1).len(), 5);
    assert_eq!(send(b"abcde", &[], 1).len(), 5);
    assert_eq!(send(b"", &[], 1).len(), 1);
}

#[test]
fn room_to_receive() {
    assert!(!has_room(&[]));
    assert!(has_room(&[0]));
}

#[test]
fn sendable_messages() {
    let fds = vec![0u32; 29];
    assert!(are_carried(&[], &fds[..0]));
    assert!(are_carried(&[0], &fds[..0]));
    assert!(!are_carried(&[], &fds[..1]));
    assert!(are_carried(&[0], &fds));
    assert!(fit_message(&fds[..0]));
    assert!(fit_message(&fds[..28]));
    assert!(!fit_message(&fds));
}

#[test]
fn fds_decide_the_call() {
    let connection = Connection::from(());
    assert_eq!(connection.try_send(b"a", &[3u32]), SendCall::WithFds);
    assert_eq!(connection.try_send::<u32>(b"a", &[]), SendCall::BytesOnly);
    assert_eq!(connection.try_send::<u32>(b"", &[]), SendCall::BytesOnly);
}

#[test]
fn transfer_waits_before_it_attempts() {
    let connection = Connection::from(());
    assert!(matches!(connection.send(), Transfer::Wait));
    assert!(matches!(connection.recv(), Transfer::Wait));
    assert!(matches!(connection.send().ready(Ok(())), Transfer::Attempt));
    match connection.send().ready(Err(Errno::BADF.into())) {
        Transfer::Done(Err(error)) => {
            assert_eq!(error.raw_os_error(), Some(Errno::BADF.raw_os_error()))
        }
        other => panic!("{:?}", other),
    }
}

#[test]
fn transfer_absorbs_would_block() {
    let would_block = || Error::from(Errno::WOULDBLOCK);
    assert!(matches!(Transfer::Attempt.attempted(Err(would_block())), Transfer::Wait));
    assert!(matches!(Transfer::Attempt.attempted(Ok(12)), Transfer::Done(Ok(12))));
    match Transfer::Attempt.attempted(Err(Errno::PIPE.into())) {
        Transfer::Done(Err(error)) => {
            assert_eq!(error.raw_os_error(), Some(Errno::PIPE.raw_os_error()))
        }
        other => panic!("{:?}", other),
    }

    let mut transfer = Connection::from(()).recv();
    for _ in 0..3 {
        transfer = transfer.ready(Ok(())).attempted(Err(would_block()));
        assert!(matches!(transfer, Transfer::Wait));
    }
    assert!(matches!(transfer.ready(Ok(())).attempted(Ok(0)), Transfer::Done(Ok(0))));
}

#[test]
fn transfer_goes_by_the_kind_of_the_error() {
    let failure = |kind: ErrorKind| IoFailure { kind, error: Errno::NOMEM.into() };
    assert!(matches!(
        Transfer::Attempt.attempted_with_kind(Err(failure(ErrorKind::WouldBlock))),
        Transfer::Wait
    ));
    assert!(matches!(
        Transfer::Attempt.attempted_with_kind(Err(failure(ErrorKind::NotFound))),
        Transfer::Done(Err(_))
    ));
    assert!(matches!(
        Transfer::Attempt.attempted_with_kind(Err(failure(ErrorKind::Other))),
        Transfer::Done(Err(_))
    ));
    assert!(matches!(
        Transfer::Attempt.attempted_with_kind(Ok(4)),
        Transfer::Done(Ok(4))
    ));
}

#[test]
fn received_fds_go_to_the_back() {
    let connection = Connection::from(());
    let mut fds: VecDeque<u32> = VecDeque::from(vec![1]);
    let count = connection.try_recv(
        &[0; 32],
        Ok(Received {
            bytes: 17,
            messages: vec![
                AncillaryMessage::Rights(vec![2, 3]),
                AncillaryMessage::Other,
                AncillaryMessage::Rights(vec![]),
                AncillaryMessage::Rights(vec![4]),
            ],
        }),
        &mut fds,
    );
    assert_eq!(count.unwrap(), 17);
    assert_eq!(fds, [1, 2, 3, 4]);

    let count = connection.try_recv(
        &[0; 32],
        Ok(Received { bytes: 1, messages: vec![AncillaryMessage::Rights(vec![5])] }),
        &mut fds,
    );
    assert_eq!(count.unwrap(), 1);
    assert_eq!(fds, [1, 2, 3, 4, 5]);
}

#[test]
fn end_of_stream_brings_nothing() {
    let mut fds: VecDeque<u32> = VecDeque::from(vec![1]);
    let received = Received { bytes: 0, messages: vec![] };
    assert_eq!(Connection::from(()).try_recv(&[0], Ok(received), &mut fds).unwrap(), 0);
    assert_eq!(fds, [1]);
}

#[test]
fn failed_receive_leaves_fds_alone() {
    let mut fds: VecDeque<u32> = VecDeque::from(vec![1]);
    let outcome = Err(Errno::AGAIN.into());
    let error = Connection::from(()).try_recv(&[0], outcome, &mut fds).unwrap_err();
    assert_eq!(error.raw_os_error(), Some(Errno::AGAIN.raw_os_error()));
    assert_eq!(fds, [1]);
}
