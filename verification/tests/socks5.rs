use ws_proxy::error::ProxyError;
use ws_proxy::socks5::{AuthStep, IpAddress, RequestStep, Socks5Server, TargetAddr};

fn socks_message(e: ProxyError) -> String {
    match e {
        ProxyError::Socks5ProtocolError(m) => m,
        other => panic!("unexpected {:?}", other),
    }
}

#[test]
fn auth_needs_header_then_methods() {
    assert!(matches!(Socks5Server::handle_auth(&[]), AuthStep::NeedMore(2)));
    assert!(matches!(Socks5Server::handle_auth(&[5]), AuthStep::NeedMore(2)));
    assert!(matches!(Socks5Server::handle_auth(&[5, 2, 0]), AuthStep::NeedMore(4)));
}

#[test]
fn auth_accepts_no_authentication() {
    match Socks5Server::handle_auth(&[5, 2, 2, 0]) {
        AuthStep::Accept(reply) => assert_eq!(reply, vec![5, 0]),
        other => panic!("unexpected {:?}", other),
    }
}

#[test]
fn auth_rejects_other_methods() {
    match Socks5Server::handle_auth(&[5, 1, 2]) {
        AuthStep::Reject(reply, e) => {
            assert_eq!(reply, vec![5, 0xFF]);
            assert_eq!(socks_message(e), "No acceptable authentication method");
        }
        other => panic!("unexpected {:?}", other),
    }
    match Socks5Server::handle_auth(&[5, 0]) {
        AuthStep::Reject(reply, _) => assert_eq!(reply, vec![5, 0xFF]),
        other => panic!("unexpected {:?}", other),
    }
}

#[test]
fn auth_rejects_wrong_version() {
    match Socks5Server::handle_auth(&[4, 1, 0]) {
        AuthStep::Failed(e) => assert_eq!(socks_message(e), "Unsupported SOCKS version: 4"),
        other => panic!("unexpected {:?}", other),
    }
}

#[test]
fn request_ipv4() {
    assert!(matches!(Socks5Server::handle_request(&[5, 1, 0]), RequestStep::NeedMore(4)));
    assert!(matches!(Socks5Server::handle_request(&[5, 1, 0, 1, 127]), RequestStep::NeedMore(10)));
    match Socks5Server::handle_request(&[5, 1, 0, 1, 127, 0, 0, 1, 0x1F, 0x90]) {
        RequestStep::Complete(t) => {
            assert!(matches!(t, TargetAddr::Ip(IpAddress::V4([127, 0, 0, 1]), 8080)));
            assert_eq!(t.host(), "127.0.0.1");
            assert_eq!(t.port(), 8080);
        }
        other => panic!("unexpected {:?}", other),
    }
}

#[test]
fn request_domain() {
    let mut req = vec![5, 1, 0, 3, 11];
    assert!(matches!(Socks5Server::handle_request(&req), RequestStep::NeedMore(18)));
    req.extend_from_slice(b"example.com");
    req.extend_from_slice(&[1, 187]);
    match Socks5Server::handle_request(&req) {
        RequestStep::Complete(t) => {
            assert_eq!(t.host(), "example.com");
            assert_eq!(t.port(), 443);
        }
        other => panic!("unexpected {:?}", other),
    }
    assert!(matches!(Socks5Server::handle_request(&[5, 1, 0, 3]), RequestStep::NeedMore(5)));
}

#[test]
fn request_domain_must_be_utf8() {
    match Socks5Server::handle_request(&[5, 1, 0, 3, 2, 0xC3, 0x28, 0, 80]) {
        RequestStep::Failed(e) => assert_eq!(socks_message(e), "Invalid domain name"),
        other => panic!("unexpected {:?}", other),
    }
}

#[test]
fn request_ipv6() {
    let mut req = vec![5, 1, 0, 4];
    req.extend_from_slice(&[0x20, 0x01, 0x0d, 0xb8, 0, 0, 0, 0, 0, 0, 0, 0, 0, 0, 0, 1]);
    assert!(matches!(Socks5Server::handle_request(&req), RequestStep::NeedMore(22)));
    req.extend_from_slice(&[0, 22]);
    match Socks5Server::handle_request(&req) {
        RequestStep::Complete(t) => {
            assert_eq!(t.host(), "2001:db8::1");
            assert_eq!(t.port(), 22);
        }
        other => panic!("unexpected {:?}", other),
    }
}

#[test]
fn request_errors() {
    match Socks5Server::handle_request(&[4, 1, 0, 1]) {
        RequestStep::Failed(e) => assert_eq!(socks_message(e), "Invalid SOCKS version in request: 4"),
        other => panic!("unexpected {:?}", other),
    }
    match Socks5Server::handle_request(&[5, 2, 0, 1]) {
        RequestStep::Reject(reply, e) => {
            assert_eq!(reply, vec![5, 7, 0, 1, 0, 0, 0, 0, 0, 0]);
            assert_eq!(socks_message(e), "Unsupported SOCKS command: 2");
        }
        other => panic!("unexpected {:?}", other),
    }
    match Socks5Server::handle_request(&[5, 1, 0, 9]) {
        RequestStep::Reject(reply, e) => {
            assert_eq!(reply, vec![5, 8, 0, 1, 0, 0, 0, 0, 0, 0]);
            assert_eq!(socks_message(e), "Unsupported address type: 9");
        }
        other => panic!("unexpected {:?}", other),
    }
}

#[test]
fn response_bytes() {
    assert_eq!(Socks5Server::send_response(0), vec![5, 0, 0, 1, 0, 0, 0, 0, 0, 0]);
    assert_eq!(Socks5Server::send_response(1), vec![5, 1, 0, 1, 0, 0, 0, 0, 0, 0]);
}

fn v6(segs: [u16; 8]) -> String {
    let mut b = [0u8; 16];
    for i in 0..8 {
        b[2 * i] = (segs[i] >> 8) as u8;
        b[2 * i + 1] = (segs[i] & 0xff) as u8;
    }
    TargetAddr::Ip(IpAddress::V6(b), 0).host()
}

#[test]
fn ipv6_text_forms() {
    assert_eq!(v6([0, 0, 0, 0, 0, 0, 0, 0]), "::");
    assert_eq!(v6([0, 0, 0, 0, 0, 0, 0, 1]), "::1");
    assert_eq!(v6([1, 0, 0, 0, 0, 0, 0, 0]), "1::");
    assert_eq!(v6([0x2001, 0xdb8, 0, 0, 0, 0, 0, 1]), "2001:db8::1");
    assert_eq!(v6([1, 0, 1, 1, 1, 1, 1, 1]), "1:0:1:1:1:1:1:1");
    assert_eq!(v6([1, 0, 0, 1, 0, 0, 1, 1]), "1::1:0:0:1:1");
    assert_eq!(v6([1, 0, 0, 1, 0, 0, 0, 1]), "1:0:0:1::1");
    assert_eq!(v6([0xfe80, 0, 0, 0, 0xabcd, 0xef01, 0x2345, 0x6789]), "fe80::abcd:ef01:2345:6789");
    assert_eq!(v6([0, 0, 0, 0, 0, 0xffff, 0xc000, 0x0280]), "::ffff:192.0.2.128");
    assert_eq!(v6([0, 0, 0, 0, 0, 0, 0xc000, 0x0280]), "::c000:280");
}

#[test]
fn domain_target_host_and_port() {
    let t = TargetAddr::Domain("example.org".to_string(), 8443);
    assert_eq!(t.host(), "example.org");
    assert_eq!(t.port(), 8443);
    let t = TargetAddr::Ip(IpAddress::V4([10, 0, 255, 1]), 1);
    assert_eq!(t.host(), "10.0.255.1");
}


#[test]
fn bind_request_gets_command_not_supported_reply() {
    match Socks5Server::handle_request(&[0x05, 0x02, 0x00, 0x01, 127, 0, 0, 1, 0, 80]) {
        RequestStep::Reject(reply, _) => assert_eq!(reply[..2], [0x05, 0x07]),
        other => panic!("unexpected {:?}", other),
    }
}
