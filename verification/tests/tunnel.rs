use ws_proxy::error::ProxyError;
use ws_proxy::socks5::IpAddress;
use ws_proxy::tunnel::{select_resolved_ip, TunnelConfig};

#[test]
fn test_tunnel_config_with_target() {
    let config = TunnelConfig::with_target(
        "example.com".to_string(),
        "1.1.1.1".to_string(),
        443,
    )
    .with_ws_path("/ws".to_string())
    .with_uuid("test-uuid".to_string());

    assert_eq!(config.server_domain, "example.com");
    assert_eq!(config.target, Some("1.1.1.1".to_string()));
    assert_eq!(config.port, 443);
    assert_eq!(config.ws_path, "/ws");
    assert_eq!(config.uuid, Some("test-uuid".to_string()));
}

#[test]
fn test_tunnel_config_without_target() {
    let config = TunnelConfig::new("example.com".to_string(), 443).with_ws_path("/ws".to_string());

    assert_eq!(config.server_domain, "example.com");
    assert_eq!(config.target, None);
    assert_eq!(config.port, 443);
}

#[test]
fn new_config_uses_root_path_and_no_uuid() {
    let config = TunnelConfig::new("example.com".to_string(), 8443);
    assert_eq!(config.ws_path, "/");
    assert_eq!(config.uuid, None);
    assert_eq!(config.port, 8443);
}

#[test]
fn websocket_url_uses_server_domain_not_target() {
    let direct = TunnelConfig::new("example.com".to_string(), 443).with_ws_path("/ws".to_string());
    let via_cdn = TunnelConfig::with_target("example.com".to_string(), "1.1.1.1".to_string(), 443)
        .with_ws_path("/ws".to_string());
    assert_eq!(direct.websocket_url_text(), "wss://example.com:443/ws");
    assert_eq!(via_cdn.websocket_url_text(), "wss://example.com:443/ws");
    let custom = TunnelConfig::new("example.com".to_string(), 8443)
        .with_ws_path("/custom/path".to_string());
    assert_eq!(custom.websocket_url_text(), "wss://example.com:8443/custom/path");
}

#[test]
fn websocket_url_parses() {
    let config = TunnelConfig::new("example.com".to_string(), 8443).with_ws_path("/ws".to_string());
    let url = config.build_websocket_url().unwrap();
    assert_eq!(url.as_str(), "wss://example.com:8443/ws");
}

#[test]
fn websocket_url_rejected_when_domain_is_not_a_host() {
    let config = TunnelConfig::new("exa mple.com".to_string(), 443);
    match config.build_websocket_url() {
        Err(ProxyError::InvalidConfiguration(m)) => assert_eq!(m, "Invalid WebSocket URL"),
        other => panic!("unexpected {:?}", other),
    }
}

#[test]
fn resolve_name_prefers_target() {
    let direct = TunnelConfig::new("example.com".to_string(), 443);
    assert_eq!(direct.resolve_name(), "example.com");
    let via_cdn =
        TunnelConfig::with_target("example.com".to_string(), "cdn.example.net".to_string(), 443);
    assert_eq!(via_cdn.resolve_name(), "cdn.example.net");
}

#[test]
fn handshake_headers_with_and_without_uuid() {
    let config = TunnelConfig::new("example.com".to_string(), 443);
    let h = config.handshake_headers();
    assert_eq!(h, vec![("Host".to_string(), "example.com".to_string())]);
    let config = config.with_uuid("my-uuid".to_string());
    let h = config.handshake_headers();
    assert_eq!(
        h,
        vec![
            ("Sec-WebSocket-Protocol".to_string(), "my-uuid".to_string()),
            ("Host".to_string(), "example.com".to_string()),
        ]
    );
}

#[test]
fn first_resolved_address_is_used() {
    let ips = vec![IpAddress::V4([1, 1, 1, 1]), IpAddress::V4([8, 8, 8, 8])];
    assert_eq!(select_resolved_ip("x", &ips).unwrap(), IpAddress::V4([1, 1, 1, 1]));
    match select_resolved_ip("cdn.example.net", &vec![]) {
        Err(ProxyError::TargetResolutionFailed(m)) => {
            assert_eq!(m, "No IP addresses found for target: cdn.example.net")
        }
        other => panic!("unexpected {:?}", other),
    }
}

#[test]
fn websocket_url_drops_default_wss_port() {
    let config = TunnelConfig::new("example.com".to_string(), 443).with_ws_path("/ws".to_string());
    let url = config.build_websocket_url().unwrap();
    assert_eq!(url.as_str(), "wss://example.com/ws");
}

#[test]
fn empty_uuid_is_no_uuid() {
    let base = TunnelConfig::new("example.com".to_string(), 443);
    assert_eq!(base.clone().with_optional_uuid(Some(String::new())).uuid, None);
    assert_eq!(base.clone().with_optional_uuid(None).uuid, None);
    assert_eq!(base.with_optional_uuid(Some("u".to_string())).uuid, Some("u".to_string()));
}
