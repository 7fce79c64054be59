use ws_proxy::adapter::{ReadOutcome, WebSocketAdapter};
use ws_proxy::protocol::WsMessage;

fn data(r: ReadOutcome) -> Vec<u8> {
    match r {
        ReadOutcome::Data(d) => d,
        other => panic!("unexpected {:?}", other),
    }
}

#[test]
fn binary_message_is_read_in_chunks() {
    let mut a = WebSocketAdapter::new(());
    assert!(!a.has_buffered());
    let first = data(a.read_message(WsMessage::Binary((1..=10).collect()), 4));
    assert_eq!(first, vec![1, 2, 3, 4]);
    assert!(a.has_buffered());
    assert_eq!(a.read_buffered(4), vec![5, 6, 7, 8]);
    assert_eq!(a.read_buffered(4), vec![9, 10]);
    assert!(!a.has_buffered());
}

#[test]
fn message_that_fits_leaves_nothing() {
    let mut a = WebSocketAdapter::new(());
    assert_eq!(data(a.read_message(WsMessage::Binary(vec![7, 8]), 16)), vec![7, 8]);
    assert!(!a.has_buffered());
}

#[test]
fn text_messages() {
    let mut a = WebSocketAdapter::new(());
    assert!(matches!(a.read_message(WsMessage::Text("CONNECTED".to_string()), 16), ReadOutcome::Retry));
    assert_eq!(data(a.read_message(WsMessage::Text("héllo".to_string()), 3)), vec![b'h', 0xC3, 0xA9]);
    assert_eq!(a.read_buffered(10), b"llo".to_vec());
}

#[test]
fn control_messages() {
    let mut a = WebSocketAdapter::new(());
    assert!(matches!(a.read_message(WsMessage::Close, 8), ReadOutcome::Eof));
    assert!(matches!(a.read_message(WsMessage::Ping(vec![1]), 8), ReadOutcome::Retry));
    assert!(matches!(a.read_message(WsMessage::Pong(vec![1]), 8), ReadOutcome::Retry));
    assert!(matches!(a.read_message(WsMessage::Frame, 8), ReadOutcome::Retry));
    assert!(!a.has_buffered());
}

#[test]
fn zero_sized_read_keeps_everything() {
    let mut a = WebSocketAdapter::new(());
    assert_eq!(data(a.read_message(WsMessage::Binary(vec![1, 2]), 0)), Vec::<u8>::new());
    assert!(a.has_buffered());
    assert_eq!(a.read_buffered(0), Vec::<u8>::new());
    assert_eq!(a.read_buffered(2), vec![1, 2]);
}

#[test]
fn stream_is_reachable() {
    let mut a = WebSocketAdapter::new(5u32);
    *a.ws_mut() += 1;
    assert_eq!(*a.ws_mut(), 6);
}

#[test]
fn reads_across_messages_keep_the_byte_order() {
    let msgs = vec![
        WsMessage::Binary(vec![1, 2, 3, 4, 5]),
        WsMessage::Text("CONNECTED".to_string()),
        WsMessage::Ping(vec![9]),
        WsMessage::Text("ab".to_string()),
        WsMessage::Binary(vec![6, 7, 8]),
    ];
    let caps = [2usize, 2, 4, 1, 1, 1, 5];
    let mut a = WebSocketAdapter::new(());
    let mut pending = msgs.into_iter();
    let mut out = Vec::new();
    for cap in caps {
        if a.has_buffered() {
            out.extend(a.read_buffered(cap));
        } else if let Some(m) = pending.next() {
            if let ReadOutcome::Data(d) = a.read_message(m, cap) {
                assert!(d.len() <= cap);
                out.extend(d);
            }
        }
    }
    assert_eq!(out, vec![1, 2, 3, 4, 5, b'a', b'b']);
    let stream = [1u8, 2, 3, 4, 5, b'a', b'b', 6, 7, 8];
    assert!(stream.starts_with(&out));
}
