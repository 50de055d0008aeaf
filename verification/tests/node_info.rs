use xrpl_packet_interceptor::node_info::{
    classify_read, has_port, read_failure, write_target, Message, Node, Peer, ReadFailure, ReadOutcome,
};

#[test]
fn node_info_message_new_keeps_fields() {
    let m = Message::new(vec![4, 5], 7);
    assert_eq!(m.data, vec![4, 5]);
    assert_eq!(m.port_to, 7);
}

#[test]
fn read_outcomes() {
    assert_eq!(read_failure(&[]), Some(ReadFailure::Closed));
    assert_eq!(read_failure(&[0x80, 0, 0, 0]), Some(ReadFailure::Compressed(0x80)));
    assert_eq!(read_failure(&[0x04, 0, 0, 0]), Some(ReadFailure::UnknownVersionHeader(4)));
    assert_eq!(read_failure(&[0, 0]), Some(ReadFailure::HeaderIncomplete));
    assert_eq!(read_failure(&[0, 0, 0, 5, 1, 1, 1]), None);
    assert_eq!(classify_read(&[0, 0, 0, 5, 1, 1, 1]), ReadOutcome::TooShort);
    let buf = [0, 0, 0, 2, 8, 8, 1, 2, 3];
    assert_eq!(classify_read(&buf), ReadOutcome::Forward(vec![0, 0, 0, 2, 8, 8, 1, 2]));
}

#[test]
fn start_keeps_peer_order() {
    let mut node: Node<u8, u8> = Node::new(1);
    node.add_peer(Peer::new(5, 50, 51));
    node.add_peer(Peer::new(6, 60, 61));
    let (reads, ports, halves) = node.start();
    assert_eq!(ports, vec![5, 6]);
    assert_eq!(halves, vec![50, 60]);
    assert_eq!(reads[1].read_half, 61);
    assert_eq!(reads[1].peer_from_port, 1);
    assert_eq!(reads[1].peer_to_port, 6);
}

#[test]
fn write_target_uses_port_as_position() {
    assert_eq!(write_target(&vec![0, 1], 1), 1);
    assert_eq!(write_target(&vec![7, 9], 9), 9);
    assert!(has_port(&vec![7, 9], 9));
    assert!(!has_port(&vec![7, 9], 8));
}
