use xrpl_packet_interceptor::connection_handler::{
    check_message, has_writer_for, message_error, plan_delivery, writer_index, Delivery, Message, MessageError, Node, Peer,
    SIZE_64KB, SIZE_64MB,
};

fn create_dummy_payload(len: usize) -> Vec<u8> {
    let mut payload = Vec::new();
    let mut state: u32 = 0x1234_5678;
    for _i in 0..len {
        state = state.wrapping_mul(1_103_515_245).wrapping_add(12_345);
        payload.push((state >> 16) as u8);
    }
    payload
}

fn create_header(first_six_bits: u8, payload_size: usize) -> Vec<u8> {
    if payload_size >= SIZE_64MB {
        panic!("Invalid payload size")
    }

    let first_six_bits = first_six_bits & 0b1111_1100;

    let bytes = payload_size.to_be_bytes();
    match bytes.len() {
        2 => vec![first_six_bits, 0, bytes[0], bytes[1]],
        4 => vec![first_six_bits | bytes[0], bytes[1], bytes[2], bytes[3]],
        8 => vec![first_six_bits | bytes[4], bytes[5], bytes[6], bytes[7]],
        _ => panic!("This should not happen"),
    }
}

fn framed(first_byte: u8, payload_size: usize) -> Vec<u8> {
    let mut buf = Vec::with_capacity(SIZE_64KB);
    buf.extend_from_slice(&create_header(first_byte, payload_size));
    buf.extend_from_slice(&create_dummy_payload(payload_size));
    buf.resize(6 + payload_size, 0);
    buf
}

#[test]
fn pass_check_message_1() {
    let payload_size: usize = 444;
    let buf = framed(0b0000_0000, payload_size);

    let message = check_message(&buf);

    assert_eq!(message.len(), payload_size + 6)
}

#[test]
fn pass_check_message_2() {
    let payload_size: usize = 4444;
    let buf = framed(0b0000_0000, payload_size);

    let message = check_message(&buf);

    assert_eq!(message.len(), payload_size + 6)
}

#[test]
fn compressed_message_is_refused() {
    let mut buf = framed(0, 255);
    buf[0] |= 0b1000_0000;
    assert_eq!(message_error(&buf), Some(MessageError::Compressed(128)));
}

#[test]
fn unknown_version_header_is_refused() {
    let buf = framed(0b0010_1000, 44);
    assert_eq!(message_error(&buf), Some(MessageError::UnknownVersionHeader(40)));
}

#[test]
fn short_buffers_are_refused() {
    assert_eq!(message_error(&[]), Some(MessageError::Truncated));
    assert_eq!(message_error(&[0, 0]), Some(MessageError::Truncated));
    let buf = framed(0, 100);
    assert_eq!(message_error(&buf[..50]), Some(MessageError::Truncated));
    assert_eq!(message_error(&buf), None);
}

#[test]
fn message_is_cut_at_announced_length() {
    let mut buf = framed(0, 10);
    buf.extend_from_slice(&[9, 9, 9]);
    let message = check_message(&buf);
    assert_eq!(message, buf[..16].to_vec());
    assert_eq!(check_message(&message), message);
}

#[test]
fn payload_size_reads_big_endian() {
    let mut buf = vec![0x01, 0x02, 0x03, 0x04];
    buf.resize(6 + 0x0102_0304, 7);
    assert_eq!(check_message(&buf).len(), 6 + 0x0102_0304);
}

#[test]
fn delivery_follows_action() {
    assert_eq!(plan_delivery(0, 500), Delivery::Send { delay_ms: 0 });
    assert_eq!(plan_delivery(u32::MAX, 0), Delivery::Drop);
    assert_eq!(plan_delivery(1000, 300), Delivery::Send { delay_ms: 700 });
    assert_eq!(plan_delivery(1000, 1000), Delivery::Send { delay_ms: 0 });
    assert_eq!(plan_delivery(1000, 5000), Delivery::Send { delay_ms: 0 });
}

#[test]
fn message_new_keeps_fields() {
    let m = Message::new(vec![1, 2, 3], 60000);
    assert_eq!(m.data, vec![1, 2, 3]);
    assert_eq!(m.peer_to_port, 60000);
}

#[test]
fn node_splits_into_tasks_per_peer() {
    let mut node: Node<&str, &str> = Node::new(10);
    assert!(node.peers.is_empty());
    node.add_peer(Peer::new(20, "w20", "r20"));
    node.add_peer(Peer::new(30, "w30", "r30"));
    assert_eq!(node.peers.len(), 2);
    let (reads, writes) = node.into_tasks();
    assert_eq!(reads.len(), 2);
    assert_eq!(reads[0].read_half, "r20");
    assert_eq!(reads[0].peer_from_port, 10);
    assert_eq!(reads[0].peer_to_port, 20);
    assert_eq!(reads[1].read_half, "r30");
    assert_eq!(reads[1].peer_to_port, 30);
    assert_eq!(writes, vec![(20, "w20"), (30, "w30")]);
}

#[test]
fn writer_is_found_by_port() {
    let writes = vec![(20u16, 'a'), (30, 'b'), (30, 'c')];
    assert_eq!(writer_index(&writes, 30), 1);
    assert_eq!(writer_index(&writes, 20), 0);
    assert!(has_writer_for(&writes, 30));
    assert!(!has_writer_for(&writes, 40));
}
