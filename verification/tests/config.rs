use ws_proxy::config::Config;
use ws_proxy::websocket::WebSocketClient;

#[test]
fn default_config_values() {
    let c = Config::default();
    assert_eq!(c.server.address, "example.com");
    assert_eq!(c.server.port, 443);
    assert_eq!(c.server.uuid, "d342d11e-d424-4583-b36e-524ab1f0afa4");
    assert_eq!(c.server.ws_path, "/");
    assert!(c.tls.randomize_fingerprint);
    assert!(c.tls.enable_ech);
    assert_eq!(c.tls.sni, "example.com");
    assert!(c.proxy.socks5_enabled);
    assert_eq!(c.proxy.socks5_bind, "127.0.0.1");
    assert_eq!(c.proxy.socks5_port, 1080);
    assert!(c.proxy.http_enabled);
    assert_eq!(c.proxy.http_bind, "127.0.0.1");
    assert_eq!(c.proxy.http_port, 8080);
    assert_eq!(c.multiplexing.max_streams, 256);
    assert_eq!(c.multiplexing.window_size, 1048576);
    assert_eq!(c.multiplexing.keep_alive_interval, 30);
    assert_eq!(c.logging.level, "info");
}

#[test]
fn test_build_server_url() {
    let config = Config::default();
    let client = WebSocketClient::new(config);
    let url = client.build_server_url().unwrap();
    assert!(url.as_str().starts_with("wss://"));
}

#[test]
fn server_url_text_forms() {
    let client = WebSocketClient::new(Config::default());
    assert_eq!(
        client.server_url_text(),
        "wss://example.com:443/d342d11e-d424-4583-b36e-524ab1f0afa4"
    );
    let mut config = Config::default();
    config.server.port = 8080;
    config.server.ws_path = "/ws/".to_string();
    config.server.uuid = "u".to_string();
    let client = WebSocketClient::new(config);
    assert_eq!(client.server_url_text(), "ws://example.com:8080/ws/u");
    assert_eq!(client.build_server_url().unwrap().as_str(), "ws://example.com:8080/ws/u");
}
