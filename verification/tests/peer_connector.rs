use xrpl_packet_interceptor::peer_connector::{
    check_upgrade_request_response, find_head_end, handshake_verdict, upgrade_response_verdict, HandshakeError,
    PeerConnector,
};

#[test]
fn peer_connector_new_test() {
    let peer_connector = PeerConnector::new("127.0.0.1".to_string());
    assert_eq!(peer_connector.ip_addr, "127.0.0.1".to_string());
}

#[test]
fn upgrade_request_test() {
    let expected = String::from(
        "\
        GET / HTTP/1.1\r\n\
        Upgrade: XRPL/2.2\r\n\
        Connection: Upgrade\r\n\
        Connect-As: Peer\r\n\
        Public-Key: 123456789abcdefg\r\n\
        Session-Signature: a\r\n\
        \r\n",
    );
    assert_eq!(
        expected,
        PeerConnector::format_upgrade_request_content("123456789abcdefg"),
    )
}

#[test]
fn check_upgrade_request_response_no_panic() {
    let response = b"\
            HTTP/1.1 101 Switching Protocol\r\n
            Connection: Upgrade\r\n\
            Upgrade: XRPL/2.2\r\n
            Connect-As: Peer\r\n
            Server: rippled-2.1.1\r\n
            Crawl: private\r\n
            X-Protocol-Ctl:\r\n
            Network-Time: 770391649\r\n
            Public-Key: n9M1Fh52PBMSrEjjs8Y64EmU8hfVzb29BBDaXoVNS3AaC1gM19CP\r\n
            Session-Signature: MEUCIQCBsA3JThSv4geQ67ZlrLvBZGO0wiWWU5pfDsiKalvwKQIgb6CuAHAYnxGf4MYB4Jgsbox4of5GxT4IbRPWablVQ9w=\r\n
            Instance-Cookie: 16110088623413850902\r\n
            Closed-Ledger: 2D7DE9661AADBCDC6DD6630F0C616F5BE29803A5A5DC31486DD65E0F6A79DDB1\r\n
            Previous-Ledger: 0000000000000000000000000000000000000000000000000000000000000000\r\n\r\n
        ";

    let buf = response.to_vec();
    check_upgrade_request_response(&buf);
    assert!(upgrade_response_verdict(&buf).is_ok());
}

#[test]
fn garbage_response_fails_to_parse() {
    let buf = b"garbage\r\n\r\n".to_vec();
    assert_eq!(upgrade_response_verdict(&buf), Err(HandshakeError::ParseFailed));
}

#[test]
fn response_without_head_end_is_refused() {
    let data = vec![1, 2, 3, 4, 5, 6, 7, 8, 9, 10, 11];
    assert_eq!(upgrade_response_verdict(&data), Err(HandshakeError::NoHeadEnd));
}

#[test]
fn wrong_status_code_is_refused_with_body() {
    let buf = b"HTTP/1.1 404 Not Found\r\n\r\n<body message>".to_vec();
    let r = upgrade_response_verdict(&buf);
    assert_eq!(r, Err(HandshakeError::UnexpectedStatus { code: 404, body_start: 26 }));
    assert_eq!(&buf[26..], b"<body message>");
}

#[test]
fn switching_protocols_returns_body_start() {
    let buf = b"HTTP/1.1 101 Switching Protocols\r\nUpgrade: XRPL/2.2\r\n\r\nextra".to_vec();
    let r = check_upgrade_request_response(&buf);
    assert_eq!(upgrade_response_verdict(&buf), Ok(r));
    assert_eq!(&buf[r..], b"extra");
}

#[test]
fn head_end_is_first_terminator() {
    assert_eq!(find_head_end(b"ab\r\n\r\ncd\r\n\r\n"), Some(2));
    assert_eq!(find_head_end(b"\r\n\r"), None);
}

#[test]
fn verdict_from_parser_result() {
    assert_eq!(handshake_verdict(None, Some(Some(101))), Err(HandshakeError::NoHeadEnd));
    assert_eq!(handshake_verdict(Some(3), None), Err(HandshakeError::ParseFailed));
    assert_eq!(handshake_verdict(Some(3), Some(None)), Err(HandshakeError::Incomplete));
    assert_eq!(handshake_verdict(Some(3), Some(Some(101))), Ok(7));
    assert_eq!(
        handshake_verdict(Some(3), Some(Some(200))),
        Err(HandshakeError::UnexpectedStatus { code: 200, body_start: 7 })
    );
}

#[test]
fn halves_present_the_other_peers_key() {
    let c = PeerConnector::new("10.0.0.1".to_string());
    let (h1, h2) = c.connection_halves(5001, 5002, "KEY_ONE", "KEY_TWO");
    assert_eq!(h1.ip_addr, "10.0.0.1");
    assert_eq!(h1.port, 5001);
    assert!(h1.request.contains("Public-Key: KEY_TWO\r\n"));
    assert_eq!(h2.port, 5002);
    assert_eq!(h2.request, PeerConnector::format_upgrade_request_content("KEY_ONE"));
}
