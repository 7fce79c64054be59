use ws_proxy::error::ProxyError;
use ws_proxy::http::HttpProxyServer;

fn http_message<T: std::fmt::Debug>(r: Result<T, ProxyError>) -> String {
    match r {
        Err(ProxyError::HttpProtocolError(m)) => m,
        other => panic!("unexpected {:?}", other),
    }
}

#[test]
fn request_line_words() {
    let rl = HttpProxyServer::parse_request_line("GET http://example.com/ HTTP/1.1\r\n").unwrap();
    assert_eq!(rl.method, "GET");
    assert_eq!(rl.url, "http://example.com/");
    assert_eq!(rl.version, "HTTP/1.1");
    assert!(!rl.is_connect());
    let rl = HttpProxyServer::parse_request_line("  CONNECT \t example.com:443   HTTP/1.1 extra\r\n").unwrap();
    assert_eq!(rl.method, "CONNECT");
    assert_eq!(rl.url, "example.com:443");
    assert_eq!(rl.version, "HTTP/1.1");
    assert!(rl.is_connect());
}

#[test]
fn request_line_too_short() {
    assert_eq!(http_message(HttpProxyServer::parse_request_line("GET /\r\n")), "Invalid HTTP request line");
    assert_eq!(http_message(HttpProxyServer::parse_request_line("")), "Invalid HTTP request line");
}

#[test]
fn host_port_of_connect_target() {
    assert_eq!(
        HttpProxyServer::parse_host_port("example.com:443").unwrap(),
        ("example.com".to_string(), 443)
    );
    assert_eq!(HttpProxyServer::parse_host_port("h:+80").unwrap(), ("h".to_string(), 80));
    assert_eq!(HttpProxyServer::parse_host_port(":0").unwrap(), ("".to_string(), 0));
}

#[test]
fn host_port_errors() {
    assert_eq!(
        http_message(HttpProxyServer::parse_host_port("example.com")),
        "Invalid CONNECT URL: example.com"
    );
    assert_eq!(http_message(HttpProxyServer::parse_host_port("a:b:c")), "Invalid CONNECT URL: a:b:c");
    assert_eq!(http_message(HttpProxyServer::parse_host_port("a:65536")), "Invalid port number");
    assert_eq!(http_message(HttpProxyServer::parse_host_port("a:")), "Invalid port number");
    assert_eq!(http_message(HttpProxyServer::parse_host_port("a:-1")), "Invalid port number");
}

#[test]
fn http_url_parts() {
    assert_eq!(
        HttpProxyServer::parse_http_url("http://example.com/index.html").unwrap(),
        ("example.com".to_string(), 80, "/index.html".to_string())
    );
    assert_eq!(
        HttpProxyServer::parse_http_url("http://example.com:8080").unwrap(),
        ("example.com".to_string(), 8080, "/".to_string())
    );
    assert_eq!(
        HttpProxyServer::parse_http_url("http://h:1:2/x/y").unwrap(),
        ("h".to_string(), 1, "/x/y".to_string())
    );
    assert_eq!(
        HttpProxyServer::parse_http_url("http://example.com/").unwrap(),
        ("example.com".to_string(), 80, "/".to_string())
    );
}

#[test]
fn http_url_errors() {
    assert_eq!(
        http_message(HttpProxyServer::parse_http_url("/index.html")),
        "Relative URL not supported: /index.html"
    );
    assert_eq!(
        http_message(HttpProxyServer::parse_http_url("https://example.com/")),
        "Relative URL not supported: https://example.com/"
    );
    assert_eq!(
        http_message(HttpProxyServer::parse_http_url("http://h:port/")),
        "port".parse::<u16>().unwrap_err().to_string()
    );
    assert_eq!(
        http_message(HttpProxyServer::parse_http_url("http://h:70000/")),
        "70000".parse::<u16>().unwrap_err().to_string()
    );
    assert_eq!(
        http_message(HttpProxyServer::parse_http_url("http://h:/")),
        "".parse::<u16>().unwrap_err().to_string()
    );
}

#[test]
fn content_length_header() {
    assert_eq!(HttpProxyServer::content_length("Content-Length: 42\r\n", 0), 42);
    assert_eq!(HttpProxyServer::content_length("CONTENT-LENGTH:5:6\r\n", 0), 5);
    assert_eq!(HttpProxyServer::content_length("content-length: abc\r\n", 7), 0);
    assert_eq!(HttpProxyServer::content_length("Host: example.com\r\n", 7), 7);
    assert_eq!(HttpProxyServer::content_length("X-Content-Length: 9\r\n", 3), 3);
}

#[test]
fn forwarded_request_bytes() {
    let headers = vec!["Host: a\r\n".to_string(), "Content-Length: 2\r\n".to_string()];
    let r = HttpProxyServer::rebuild_request("POST", "/p", "HTTP/1.1", &headers, b"hi");
    assert_eq!(r, b"POST /p HTTP/1.1\r\nHost: a\r\nContent-Length: 2\r\n\r\nhi".to_vec());
    let r = HttpProxyServer::rebuild_request("GET", "/", "HTTP/1.0", &vec![], b"");
    assert_eq!(r, b"GET / HTTP/1.0\r\n\r\n".to_vec());
}

#[test]
fn connect_reply_bytes() {
    assert_eq!(
        HttpProxyServer::connect_established_reply(),
        b"HTTP/1.1 200 Connection Established\r\n\r\n".to_vec()
    );
}

#[test]
fn blank_header_line() {
    assert!(ws_proxy::text::is_blank_line("\r\n"));
    assert!(ws_proxy::text::is_blank_line(""));
    assert!(!ws_proxy::text::is_blank_line("Host: a\r\n"));
}

#[test]
fn request_line_written_then_parsed() {
    let line = format!("{} {} {}\r\n", "POST", "/submit?x=1", "HTTP/1.0");
    let rl = HttpProxyServer::parse_request_line(&line).unwrap();
    assert_eq!(rl.method, "POST");
    assert_eq!(rl.url, "/submit?x=1");
    assert_eq!(rl.version, "HTTP/1.0");
}

#[test]
fn bracketed_ipv6_connect_target() {
    assert_eq!(
        HttpProxyServer::parse_host_port("[::1]:443").unwrap(),
        ("::1".to_string(), 443)
    );
    assert_eq!(
        HttpProxyServer::parse_host_port("[2001:db8::1]:8080").unwrap(),
        ("2001:db8::1".to_string(), 8080)
    );
    assert_eq!(http_message(HttpProxyServer::parse_host_port("[::1]")), "Invalid CONNECT URL: [::1]");
    assert_eq!(http_message(HttpProxyServer::parse_host_port("[::1")), "Invalid CONNECT URL: [::1");
    assert_eq!(http_message(HttpProxyServer::parse_host_port("[::1]x443")), "Invalid CONNECT URL: [::1]x443");
    assert_eq!(http_message(HttpProxyServer::parse_host_port("[::1]:70000")), "Invalid port number");
}

#[test]
fn bracket_without_ipv6_address_is_a_plain_host() {
    assert_eq!(HttpProxyServer::parse_host_port("[abc:80").unwrap(), ("[abc".to_string(), 80));
    assert_eq!(HttpProxyServer::parse_host_port("[x:80").unwrap(), ("[x".to_string(), 80));
    assert_eq!(HttpProxyServer::parse_host_port("[a]:80").unwrap(), ("[a]".to_string(), 80));
    assert_eq!(http_message(HttpProxyServer::parse_host_port("[a]:b:80")), "Invalid CONNECT URL: [a]:b:80");
}

#[test]
fn http_url_written_then_parsed() {
    let (h, p, s) = ("example.org", 8081u16, "a/b?c=d");
    assert_eq!(
        HttpProxyServer::parse_http_url(&format!("http://{}:{}/{}", h, p, s)).unwrap(),
        (h.to_string(), p, format!("/{}", s))
    );
    assert_eq!(
        HttpProxyServer::parse_http_url(&format!("http://{}/{}", h, s)).unwrap(),
        (h.to_string(), 80, format!("/{}", s))
    );
    assert_eq!(
        HttpProxyServer::parse_http_url(&format!("http://{}", h)).unwrap(),
        (h.to_string(), 80, "/".to_string())
    );
}
