use ws_proxy::error::ProxyError;
use ws_proxy::protocol::{
    check_connect_reply, connect_message, initial_data_after_ack, is_connected_ack, WsMessage,
};

#[test]
fn connect_message_forms() {
    assert_eq!(connect_message("example.com", 443, None), "CONNECT:example.com:443|");
    assert_eq!(
        connect_message("example.com", 80, Some(b"GET / HTTP/1.1\r\n")),
        "CONNECT:example.com:80|GET / HTTP/1.1\r\n"
    );
    assert_eq!(connect_message("h", 1, Some(&[0x61, 0xFF])), "CONNECT:h:1|a\u{FFFD}");
    assert_eq!(connect_message("h", 1, Some(b"")), "CONNECT:h:1|");
}

#[test]
fn connect_reply() {
    assert!(check_connect_reply(Some(WsMessage::Text("CONNECTED".to_string()))).is_ok());
    match check_connect_reply(Some(WsMessage::Text("NOPE".to_string()))) {
        Err(ProxyError::TunnelError(m)) => assert_eq!(m, "Failed to establish tunnel: unexpected response"),
        other => panic!("unexpected {:?}", other),
    }
    match check_connect_reply(Some(WsMessage::Binary(b"CONNECTED".to_vec()))) {
        Err(ProxyError::TunnelError(m)) => assert_eq!(m, "Failed to establish tunnel: unexpected response"),
        other => panic!("unexpected {:?}", other),
    }
    match check_connect_reply(None) {
        Err(ProxyError::TunnelError(m)) => assert_eq!(m, "Connection closed before tunnel established"),
        other => panic!("unexpected {:?}", other),
    }
}

#[test]
fn raw_ack() {
    assert!(is_connected_ack(b"CONNECTED"));
    assert!(!is_connected_ack(b"CONNECTEX"));
    assert!(!is_connected_ack(b"CONNECTED!"));
}

#[test]
fn initial_data_not_resent_when_carried() {
    let msg = connect_message("h", 1, Some(b""));
    assert_eq!(initial_data_after_ack(&msg, Some(vec![])), None);
    let msg = connect_message("h", 1, Some(b"abc"));
    assert_eq!(initial_data_after_ack(&msg, Some(b"abc".to_vec())), None);
    let msg = connect_message("example.com", 80, Some(b"x|"));
    assert_eq!(msg, "CONNECT:example.com:80|x|");
    assert_eq!(initial_data_after_ack(&msg, Some(b"x|".to_vec())), None);
    assert_eq!(initial_data_after_ack("CONNECT:h:1|", None), None);
}

#[test]
fn initial_data_sent_when_not_carried() {
    let msg = connect_message("h", 1, None);
    assert_eq!(initial_data_after_ack(&msg, Some(b"abc".to_vec())), Some(b"abc".to_vec()));
}
