use teleia::wire::{read_length_prefixed_utf8, BinaryClient, BinaryMessage, FrameParser, WireError};

fn hello_world() -> BinaryMessage {
    BinaryMessage { event: b"hello".to_vec(), data: b"world".to_vec() }
}

#[test]
fn encode_lays_out_two_prefixed_blobs() {
    let bytes = hello_world().encode().unwrap();
    let mut expected = vec![5, 0, 0, 0];
    expected.extend_from_slice(b"hello");
    expected.extend_from_slice(&[5, 0, 0, 0]);
    expected.extend_from_slice(b"world");
    assert_eq!(bytes, expected);
}

#[test]
fn length_prefix_is_little_endian() {
    let m = BinaryMessage { event: vec![7u8; 258], data: Vec::new() };
    let bytes = m.encode().unwrap();
    assert_eq!(&bytes[..4], &[2, 1, 0, 0]);
    assert_eq!(&bytes[262..266], &[0, 0, 0, 0]);
    assert_eq!(bytes.len(), 266);
}

#[test]
fn byte_at_a_time_yields_one_message_only_at_the_end() {
    let bytes = hello_world().encode().unwrap();
    let mut parser = FrameParser::new();
    let mut got = Vec::new();
    for (i, b) in bytes.iter().enumerate() {
        parser.feed(&[*b]);
        match parser.next_message() {
            Some(m) => {
                assert_eq!(i, bytes.len() - 1);
                got.push(m);
            }
            None => assert!(i < bytes.len() - 1),
        }
    }
    assert_eq!(got.len(), 1);
    assert_eq!(got[0].event, b"hello".to_vec());
    assert_eq!(got[0].data, b"world".to_vec());
    assert!(parser.next_message().is_none());
}

#[test]
fn two_frames_in_one_read_come_out_in_order() {
    let a = hello_world().encode().unwrap();
    let b = BinaryMessage { event: b"e".to_vec(), data: Vec::new() }.encode().unwrap();
    let mut both = a.clone();
    both.extend_from_slice(&b);
    both.extend_from_slice(&[9, 0]);
    let mut parser = FrameParser::new();
    parser.feed(&both);
    let first = parser.next_message().unwrap();
    assert_eq!(first.event, b"hello".to_vec());
    let second = parser.next_message().unwrap();
    assert_eq!(second.event, b"e".to_vec());
    assert!(second.data.is_empty());
    assert!(parser.next_message().is_none());
    parser.feed(&[0, 0]);
    assert!(parser.next_message().is_none());
}

#[test]
fn empty_blobs_round_trip() {
    let m = BinaryMessage { event: Vec::new(), data: Vec::new() };
    let bytes = m.encode().unwrap();
    assert_eq!(bytes, vec![0u8; 8]);
    let mut parser = FrameParser::new();
    parser.feed(&bytes[..7]);
    assert!(parser.next_message().is_none());
    parser.feed(&bytes[7..]);
    let got = parser.next_message().unwrap();
    assert!(got.event.is_empty() && got.data.is_empty());
}

#[test]
fn client_queues_subscriptions_then_publishes() {
    let mut client = BinaryClient::new(&[b"chat".to_vec(), b"x".to_vec()]).unwrap();
    let mut expected = vec![b's', 4, 0, 0, 0];
    expected.extend_from_slice(b"chat");
    expected.extend_from_slice(&[b's', 1, 0, 0, 0, b'x']);
    assert_eq!(client.outgoing(), &expected[..]);
    client.consume_outgoing(expected.len());
    assert!(client.outgoing().is_empty());
    client.publish(b"ev", b"data").unwrap();
    let mut publish = vec![b'p', 2, 0, 0, 0];
    publish.extend_from_slice(b"ev");
    publish.extend_from_slice(&[4, 0, 0, 0]);
    publish.extend_from_slice(b"data");
    assert_eq!(client.outgoing(), &publish[..]);
    client.consume_outgoing(3);
    assert_eq!(client.outgoing(), &publish[3..]);
}

#[test]
fn client_pops_a_message_once_all_of_it_arrived() {
    let mut client = BinaryClient::new(&[]).unwrap();
    let bytes = hello_world().encode().unwrap();
    client.receive(&bytes[..10]);
    assert!(client.pop_incoming_message().is_none());
    client.receive(&bytes[10..]);
    let m = client.pop_incoming_message().unwrap();
    assert_eq!(m.data, b"world".to_vec());
    assert!(client.pop_incoming_message().is_none());
}

#[test]
fn length_prefixed_text_reads_back() {
    let mut bytes = vec![3, 0, 0, 0];
    bytes.extend_from_slice("hé".as_bytes());
    bytes.push(42);
    let (s, used) = read_length_prefixed_utf8(&bytes).unwrap();
    assert_eq!(s, "hé");
    assert_eq!(used, 7);
}

#[test]
fn length_prefixed_text_truncated() {
    assert_eq!(read_length_prefixed_utf8(&[1, 0]).unwrap_err(), WireError::Truncated);
    assert_eq!(read_length_prefixed_utf8(&[3, 0, 0, 0, b'a']).unwrap_err(), WireError::Truncated);
}

#[test]
fn length_prefixed_text_not_utf8() {
    assert_eq!(read_length_prefixed_utf8(&[1, 0, 0, 0, 0xff]).unwrap_err(), WireError::InvalidUtf8);
}
