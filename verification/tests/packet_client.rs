use xrpl_packet_interceptor::packet_client::{build_packet, execution_record, PacketRequestError};

#[test]
fn empty_packet_is_refused() {
    assert_eq!(build_packet(vec![], 2, 3).unwrap_err(), PacketRequestError::EmptyData);
}

#[test]
fn unset_ports_are_refused() {
    let data = vec![1, 2, 3, 4, 5, 6, 7, 8, 9, 10];
    assert_eq!(build_packet(data.clone(), u32::MAX, 3).unwrap_err(), PacketRequestError::FromPortNotSet);
    assert_eq!(build_packet(data, 2, u32::MAX).unwrap_err(), PacketRequestError::ToPortNotSet);
}

#[test]
fn valid_packet_is_built() {
    let data = vec![1, 2, 3, 4, 5, 6, 7, 8, 9, 10];
    let p = build_packet(data.clone(), 2, 3).unwrap();
    assert_eq!(p.data, data);
    assert_eq!(p.from_port, 2);
    assert_eq!(p.to_port, 3);
}

#[test]
fn execution_record_is_csv() {
    let s = execution_record(&[0x00, 0xab, 0x1f], 60001, 7, &[0xff], 4294967295);
    assert_eq!(s, "00ab1f,60001,7,ff,4294967295");
    assert_eq!(execution_record(&[], 0, 10, &[], 0), ",0,10,,0");
}
