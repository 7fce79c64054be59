use ws_proxy::text::{decimal_string, labeled_number};

#[test]
fn decimal_forms() {
    assert_eq!(decimal_string(0), "0");
    assert_eq!(decimal_string(7), "7");
    assert_eq!(decimal_string(65535), "65535");
    assert_eq!(decimal_string(u64::MAX), "18446744073709551615");
    assert_eq!(labeled_number("port ", 443), "port 443");
}

#[test]
fn host_port_written_then_parsed() {
    for port in [0u16, 1, 80, 443, 8080, 65535] {
        let text = format!("example.com:{}", port);
        assert_eq!(
            ws_proxy::http::HttpProxyServer::parse_host_port(&text).unwrap(),
            ("example.com".to_string(), port)
        );
    }
}

#[test]
fn whitespace_matches_char_is_whitespace() {
    for u in 0u32..=0x10FFFF {
        if let Some(c) = char::from_u32(u) {
            assert_eq!(ws_proxy::text::char_is_ws(c), c.is_whitespace(), "U+{:04X}", u);
        }
    }
}

#[test]
fn unsigned_parse_matches_str_parse() {
    let samples = [
        "", "+", "-", "0", "+0", "-0", "00080", "65535", "65536", "+65535", "1 ", " 1", "１", "12a",
        "99999999999999999999", "++1", "+-1",
    ];
    for s in samples {
        let chars: Vec<char> = s.chars().collect();
        let mine = ws_proxy::text::parse_unsigned_range(&chars, 0, chars.len(), 65535);
        let std = s.parse::<u16>().ok().map(|v| v as u64);
        assert_eq!(mine, std, "{:?}", s);
    }
}

#[test]
fn trim_matches_str_trim() {
    let samples = ["", "  ", " a ", "\t\r\n x y \u{3000}", "\u{85}z\u{A0}", "abc"];
    for s in samples {
        let chars: Vec<char> = s.chars().collect();
        let (a, b) = ws_proxy::text::trim_bounds(&chars, 0, chars.len());
        let mine: String = chars[a..b].iter().collect();
        assert_eq!(mine, s.trim());
    }
}
