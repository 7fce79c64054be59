//! HTTP proxy front end: the request line, CONNECT targets, absolute
//! `http://` URLs, the `Content-Length` header and the request that is
//! forwarded through the tunnel.
use vstd::prelude::*;
use vstd::utf8::encode_utf8;
use crate::config::ProxyConfig;
use crate::error::ProxyError;
use crate::text::{
    chars_of, find_char, labeled_text, lacks, lemma_split_first, lemma_split_none,
    lemma_split_nonempty, lemma_words_all_ws, decimal, lemma_decimal_digits, lemma_parse_decimal,
    is_ascii_digit, lemma_words_first, lemma_words_skip_ws, lowercase,
    parse_u16, parse_unsigned, parse_unsigned_range, push_str, u16_parse_error_text, string_of, split_char, string_of_range, to_lowercase, trim,
    trim_bounds, trim_end, trim_start, words, all_ws, is_ws, char_is_ws, str_eq,
};

verus! {

/// An HTTP protocol error whose message is `m`.
pub open spec fn http_error(e: ProxyError, m: Seq<char>) -> bool {
    e matches ProxyError::HttpProtocolError(s) && s@ == m
}

/// The request line split into its first three words.
#[derive(Debug)]
pub struct RequestLine {
    pub method: String,
    pub url: String,
    pub version: String,
}

impl RequestLine {
    /// Whether this is a CONNECT (tunnel) request.
    pub fn is_connect(&self) -> (b: bool)
        ensures
            b == (self.method@ == "CONNECT"@),
    {
        str_eq(self.method.as_str(), "CONNECT")
    }
}

/// Whether `url` is written `[addr]:…` with an address that holds a `:` (an
/// IPv6 address): it starts with `[`, and the first `]` after it closes a
/// text that holds `:` and is followed by `:`.
pub open spec fn is_bracketed_ipv6(url: Seq<char>) -> bool {
    let inner = split_char(url.skip(1), ']');
    &&& url.len() > 0
    &&& url[0] == '['
    &&& inner.len() >= 2
    &&& !lacks(inner[0], ':')
    &&& url.len() > inner[0].len() + 2
    &&& url[inner[0].len() as int + 2] == ':'
}

/// Host and port of a CONNECT target, or the error message: `[addr]:port`
/// for an IPv6 address (the host is the address between the brackets), else
/// `host:port` with a single `:`.
pub open spec fn spec_host_port(url: Seq<char>) -> Result<(Seq<char>, u16), Seq<char>> {
    if is_bracketed_ipv6(url) {
        let addr = split_char(url.skip(1), ']')[0];
        match parse_unsigned(url.skip(addr.len() as int + 3), 65535) {
            Some(p) => Ok((addr, p as u16)),
            None => Err("Invalid port number"@),
        }
    } else {
        spec_plain_host_port(url)
    }
}

/// Host and port of a CONNECT target `host:port` with a single `:`, or the
/// error message.
pub open spec fn spec_plain_host_port(url: Seq<char>) -> Result<(Seq<char>, u16), Seq<char>> {
    let parts = split_char(url, ':');
    if parts.len() != 2 {
        Err("Invalid CONNECT URL: "@ + url)
    } else {
        match parse_unsigned(parts[1], 65535) {
            Some(p) => Ok((parts[0], p as u16)),
            None => Err("Invalid port number"@),
        }
    }
}

/// Host, port and path of an absolute `http://` URL, or the error message.
pub open spec fn spec_http_url(url: Seq<char>) -> Result<(Seq<char>, u16, Seq<char>), Seq<char>> {
    if !"http://"@.is_prefix_of(url) {
        Err("Relative URL not supported: "@ + url)
    } else {
        let rest = url.skip(7);
        let parts = split_char(rest, '/');
        let host_port = parts[0];
        let path = if parts.len() > 1 {
            "/"@ + rest.skip(host_port.len() + 1int)
        } else {
            "/"@
        };
        if lacks(host_port, ':') {
            Ok((host_port, 80, path))
        } else {
            let hp = split_char(host_port, ':');
            match parse_unsigned(hp[1], 65535) {
                Some(p) => Ok((hp[0], p as u16, path)),
                None => Err(u16_parse_error_text(hp[1])),
            }
        }
    }
}

/// The `Content-Length` seen after a header line, starting from `current`:
/// a header that starts with `content-length:` in lower case sets it to the
/// trimmed text between its first and second `:`, read as a number (0 when
/// that fails).
pub open spec fn spec_content_length(line: Seq<char>, current: usize) -> usize {
    let parts = split_char(line, ':');
    if "content-length:"@.is_prefix_of(lowercase(line)) && parts.len() > 1 {
        match parse_unsigned(trim(parts[1]), usize::MAX as nat) {
            Some(n) => n as usize,
            None => 0,
        }
    } else {
        current
    }
}

/// The bytes of all header lines, in order.
pub open spec fn headers_bytes(hs: Seq<Seq<char>>) -> Seq<u8>
    decreases hs.len(),
{
    if hs.len() == 0 {
        seq![]
    } else {
        headers_bytes(hs.drop_last()) + encode_utf8(hs.last())
    }
}

/// The request forwarded for a plain HTTP request: the request line with the
/// path in place of the URL, the header lines, an empty line and the body.
pub open spec fn spec_forwarded_request(
    method: Seq<char>,
    path: Seq<char>,
    version: Seq<char>,
    headers: Seq<Seq<char>>,
    body: Seq<u8>,
) -> Seq<u8> {
    encode_utf8(method + seq![' '] + path + seq![' '] + version + seq!['\r', '\n'])
        + headers_bytes(headers) + encode_utf8(seq!['\r', '\n']) + body
}

/// Whether `p` is a prefix of `v`.
fn has_prefix(v: &Vec<char>, p: &Vec<char>) -> (b: bool)
    ensures
        b == p@.is_prefix_of(v@),
{
    if p.len() > v.len() {
        return false;
    }
    let mut i: usize = 0;
    while i < p.len()
        invariant
            i <= p@.len() <= v@.len(),
            forall|j: int| 0 <= j < i ==> p@[j] == v@[j],
        decreases p@.len() - i,
    {
        if p[i] != v[i] {
            assert(v@.take(p@.len() as int)[i as int] != p@[i as int]);
            return false;
        }
        i = i + 1;
    }
    assert(v@.take(p@.len() as int) =~= p@);
    true
}

/// Given the first occurrence of `c` at `k` and the next one at `m` (or the
/// end at `m`), the first two pieces of splitting `s` at `c`.
proof fn lemma_second_piece(s: Seq<char>, c: char, k: int, m: int)
    requires
        0 <= k < s.len(),
        s[k] == c,
        lacks(s.take(k), c),
        k < m <= s.len(),
        lacks(s.subrange(k + 1, m), c),
        m == s.len() || s[m] == c,
    ensures
        split_char(s, c).len() >= 2,
        split_char(s, c)[0] == s.take(k),
        split_char(s, c)[1] == s.subrange(k + 1, m),
        (split_char(s, c).len() == 2) == (m == s.len()),
{
    lemma_split_first(s, c, k);
    let t = s.skip(k + 1);
    if m == s.len() {
        assert(t =~= s.subrange(k + 1, m));
        lemma_split_none(t, c);
    } else {
        assert(t.take(m - k - 1) =~= s.subrange(k + 1, m));
        lemma_split_first(t, c, m - k - 1);
        lemma_split_nonempty(t.skip(m - k), c);
    }
}

/// HTTP proxy server.
pub struct HttpProxyServer {
    pub config: ProxyConfig,
}

impl HttpProxyServer {
    pub fn new(config: ProxyConfig) -> (s: Self)
        ensures
            s.config == config,
    {
        HttpProxyServer { config }
    }

    /// The first three whitespace-separated words of the request line:
    /// method, URL and version.
    pub fn parse_request_line(line: &str) -> (r: Result<RequestLine, ProxyError>)
        ensures
            words(line@).len() < 3 ==> (r matches Err(e) && http_error(
                e,
                "Invalid HTTP request line"@,
            )),
            words(line@).len() >= 3 ==> (r matches Ok(rl) && rl.method@ == words(line@)[0]
                && rl.url@ == words(line@)[1] && rl.version@ == words(line@)[2]),
    {
        let v = chars_of(line);
        let n = v.len();
        let mut bounds: Vec<(usize, usize)> = Vec::new();
        let mut pos: usize = 0;
        let ghost s = v@;
        assert(s.skip(0) =~= s);
        while bounds.len() < 3
            invariant
                s == v@,
                s == line@,
                n == s.len(),
                pos <= n,
                bounds@.len() <= 3,
                words(s) =~= Seq::new(
                    bounds@.len() as nat,
                    |i: int| s.subrange(bounds@[i].0 as int, bounds@[i].1 as int),
                ) + words(s.skip(pos as int)),
                forall|i: int|
                    0 <= i < bounds@.len() ==> (#[trigger] bounds@[i]).0 <= bounds@[i].1 <= pos,
            decreases n - pos + (3 - bounds@.len()),
        {
            let mut a = pos;
            while a < n && char_is_ws(v[a])
                invariant
                    pos <= a <= n,
                    n == v@.len(),
                    forall|j: int| pos <= j < a ==> is_ws(#[trigger] v@[j]),
                decreases n - a,
            {
                a = a + 1;
            }
            proof {
                let t = s.skip(pos as int);
                assert forall|j: int| 0 <= j < a - pos implies #[trigger] is_ws(
                    t.take(a - pos)[j],
                ) by {
                    assert(t.take(a - pos)[j] == v@[pos + j]);
                }
                lemma_words_skip_ws(t, a - pos);
                assert(t.skip(a - pos) =~= s.skip(a as int));
            }
            if a == n {
                proof {
                    assert(s.skip(a as int) =~= Seq::<char>::empty());
                    assert(words(Seq::<char>::empty()) =~= Seq::<Seq<char>>::empty());
                }
                return Err(ProxyError::HttpProtocolError("Invalid HTTP request line".to_owned()));
            }
            let mut b = a + 1;
            while b < n && !char_is_ws(v[b])
                invariant
                    a < b <= n,
                    n == v@.len(),
                    forall|j: int| a <= j < b ==> !is_ws(#[trigger] v@[j]),
                decreases n - b,
            {
                b = b + 1;
            }
            proof {
                let t = s.skip(a as int);
                assert forall|j: int| 0 <= j < b - a implies !is_ws(#[trigger] t[j]) by {
                    assert(t[j] == v@[a + j]);
                }
                if b < n {
                    assert(t[b - a] == v@[b as int]);
                }
                lemma_words_first(t, b - a);
                assert(t.take(b - a) =~= s.subrange(a as int, b as int));
                assert(t.skip(b - a) =~= s.skip(b as int));
            }
            let ghost old_bounds = bounds@;
            bounds.push((a, b));
            pos = b;
            proof {
                assert(Seq::new(
                    bounds@.len() as nat,
                    |i: int| s.subrange(bounds@[i].0 as int, bounds@[i].1 as int),
                ) =~= Seq::new(
                    old_bounds.len() as nat,
                    |i: int| s.subrange(old_bounds[i].0 as int, old_bounds[i].1 as int),
                ).push(s.subrange(a as int, b as int)));
            }
        }
        let (a0, b0) = bounds[0];
        let (a1, b1) = bounds[1];
        let (a2, b2) = bounds[2];
        Ok(
            RequestLine {
                method: string_of_range(&v, a0, b0),
                url: string_of_range(&v, a1, b1),
                version: string_of_range(&v, a2, b2),
            },
        )
    }

    /// Host and port of a CONNECT target written `host:port`, or
    /// `[addr]:port` for an IPv6 address.
    pub fn parse_host_port(url: &str) -> (r: Result<(String, u16), ProxyError>)
        ensures
            spec_host_port(url@) matches Ok(hp) ==> (r matches Ok(x) && x.0@ == hp.0 && x.1
                == hp.1),
            spec_host_port(url@) matches Err(m) ==> (r matches Err(e) && http_error(e, m)),
    {
        let v = chars_of(url);
        let n = v.len();
        let ghost s = v@;
        assert(s.subrange(0, n as int) =~= s);
        if n > 0 && v[0] == '[' {
            let ghost t = s.skip(1);
            assert(s.subrange(1, n as int) =~= t);
            match find_char(&v, 1, n, ']') {
                None => {
                    proof {
                        lemma_split_none(t, ']');
                    }
                },
                Some(k) => {
                    proof {
                        assert(t.take(k - 1) =~= s.subrange(1, k as int));
                        assert(t[k - 1] == ']');
                        lemma_split_first(t, ']', k - 1);
                        lemma_split_nonempty(t.skip(k as int), ']');
                        assert(split_char(t, ']')[0] == s.subrange(1, k as int));
                    }
                    let colon_inside = match find_char(&v, 1, k, ':') {
                        Some(j) => {
                            assert(s.subrange(1, k as int)[j - 1] == ':');
                            true
                        },
                        None => false,
                    };
                    if k + 1 < n && v[k + 1] == ':' && colon_inside {
                        assert(is_bracketed_ipv6(s));
                        assert(s.skip(k + 2) =~= s.subrange(k + 2, n as int));
                        return match parse_unsigned_range(&v, k + 2, n, 65535) {
                            Some(port) => Ok((string_of_range(&v, 1, k), port as u16)),
                            None => Err(ProxyError::HttpProtocolError("Invalid port number".to_owned())),
                        };
                    }
                },
            }
        }
        assert(!is_bracketed_ipv6(s));
        match find_char(&v, 0, n, ':') {
            None => {
                proof {
                    lemma_split_none(s, ':');
                }
                Err(ProxyError::HttpProtocolError(labeled_text("Invalid CONNECT URL: ", url)))
            },
            Some(k) => {
                assert(s.subrange(0, k as int) =~= s.take(k as int));
                let second = find_char(&v, k + 1, n, ':');
                let m = match second {
                    Some(m) => m,
                    None => n,
                };
                proof {
                    lemma_second_piece(s, ':', k as int, m as int);
                }
                if m < n {
                    return Err(
                        ProxyError::HttpProtocolError(labeled_text("Invalid CONNECT URL: ", url)),
                    );
                }
                match parse_unsigned_range(&v, k + 1, n, 65535) {
                    Some(port) => Ok((string_of_range(&v, 0, k), port as u16)),
                    None => Err(ProxyError::HttpProtocolError("Invalid port number".to_owned())),
                }
            },
        }
    }

    /// Host, port and path of an absolute `http://` URL; the port is 80
    /// unless given, and the path is `/` unless given.
    pub fn parse_http_url(url: &str) -> (r: Result<(String, u16, String), ProxyError>)
        ensures
            spec_http_url(url@) matches Ok(x) ==> (r matches Ok(y) && y.0@ == x.0 && y.1 == x.1
                && y.2@ == x.2),
            spec_http_url(url@) matches Err(m) ==> (r matches Err(e) && http_error(e, m)),
    {
        let v = chars_of(url);
        let scheme = chars_of("http://");
        let n = v.len();
        let ghost s = v@;
        if !has_prefix(&v, &scheme) {
            return Err(ProxyError::HttpProtocolError(labeled_text("Relative URL not supported: ", url)));
        }
        proof {
            reveal_strlit("http://");
        }
        assert(scheme@.len() == 7);
        let ghost rest = s.skip(7);
        assert(rest =~= s.subrange(7, n as int));
        // The host:port part ends at the first '/'.
        let slash = find_char(&v, 7, n, '/');
        let hp_end = match slash {
            Some(k) => k,
            None => n,
        };
        let path = match slash {
            Some(k) => string_of_range(&v, k, n),
            None => "/".to_owned(),
        };
        proof {
            match slash {
                Some(k) => {
                    assert(rest.take(k - 7) =~= s.subrange(7, k as int));
                    lemma_split_first(rest, '/', k - 7);
                    lemma_split_nonempty(rest.skip(k - 7 + 1), '/');
                    let parts = split_char(rest, '/');
                    assert(parts[0] == s.subrange(7, k as int));
                    assert(rest.skip(parts[0].len() + 1int) =~= s.subrange(k + 1, n as int));
                    reveal_strlit("/");
                    assert("/"@ + rest.skip(parts[0].len() + 1int) =~= s.subrange(k as int, n as int));
                },
                None => {
                    lemma_split_none(rest, '/');
                },
            }
        }
        let ghost host_port = s.subrange(7, hp_end as int);
        assert(split_char(rest, '/')[0] == host_port);
        match find_char(&v, 7, hp_end, ':') {
            None => {
                Ok((string_of_range(&v, 7, hp_end), 80, path))
            },
            Some(c) => {
                assert(host_port.take(c - 7) =~= s.subrange(7, c as int));
                let second = find_char(&v, c + 1, hp_end, ':');
                let m = match second {
                    Some(m) => m,
                    None => hp_end,
                };
                proof {
                    assert(host_port.subrange(c - 7 + 1, m - 7) =~= s.subrange(c + 1, m as int));
                    lemma_second_piece(host_port, ':', c - 7, m - 7);
                    assert(!lacks(host_port, ':')) by {
                        assert(host_port[c - 7] == ':');
                    }
                }
                let port_text = string_of_range(&v, c + 1, m);
                match parse_u16(port_text.as_str()) {
                    Ok(port) => Ok((string_of_range(&v, 7, c), port, path)),
                    Err(msg) => Err(ProxyError::HttpProtocolError(msg)),
                }
            },
        }
    }

    /// The `Content-Length` after reading the header line `line`, the value
    /// before it being `current`.
    pub fn content_length(line: &str, current: usize) -> (r: usize)
        ensures
            r == spec_content_length(line@, current),
    {
        let lower = to_lowercase(line);
        let lv = chars_of(lower.as_str());
        let key = chars_of("content-length:");
        if !has_prefix(&lv, &key) {
            return current;
        }
        let v = chars_of(line);
        let n = v.len();
        let ghost s = v@;
        assert(s.subrange(0, n as int) =~= s);
        match find_char(&v, 0, n, ':') {
            None => {
                proof {
                    lemma_split_none(s, ':');
                }
                current
            },
            Some(k) => {
                let second = find_char(&v, k + 1, n, ':');
                let m = match second {
                    Some(m) => m,
                    None => n,
                };
                proof {
                    assert(s.subrange(0, k as int) =~= s.take(k as int));
                    lemma_second_piece(s, ':', k as int, m as int);
                }
                let (a, b) = trim_bounds(&v, k + 1, m);
                match parse_unsigned_range(&v, a, b, usize::MAX as u64) {
                    Some(x) => x as usize,
                    None => 0,
                }
            },
        }
    }

    /// The request forwarded for a plain HTTP request: the request line with
    /// the path in place of the URL, the header lines as received, an empty
    /// line, and the body.
    pub fn rebuild_request(
        method: &str,
        path: &str,
        version: &str,
        headers: &Vec<String>,
        body: &[u8],
    ) -> (r: Vec<u8>)
        ensures
            r@ == spec_forwarded_request(
                method@,
                path@,
                version@,
                headers@.map_values(|h: String| h@),
                body@,
            ),
            ({
                let line = encode_utf8(
                    method@ + seq![' '] + path@ + seq![' '] + version@ + seq!['\r', '\n'],
                );
                r@.take(line.len() as int) == line
            }),
    {
        proof {
            law_forwarded_request_line(
                method@,
                path@,
                version@,
                headers@.map_values(|h: String| h@),
                body@,
            );
        }
        let mut line: Vec<char> = Vec::new();
        push_str(&mut line, method);
        line.push(' ');
        push_str(&mut line, path);
        line.push(' ');
        push_str(&mut line, version);
        line.push('\r');
        line.push('\n');
        let line_text = string_of(&line);
        let mut out: Vec<u8> = Vec::new();
        push_bytes(&mut out, line_text.as_str().as_bytes());
        assert(line@ =~= method@ + seq![' '] + path@ + seq![' '] + version@ + seq!['\r', '\n']);
        let ghost hs = headers@.map_values(|h: String| h@);
        let ghost start = out@;
        let mut i: usize = 0;
        while i < headers.len()
            invariant
                i <= headers@.len(),
                hs == headers@.map_values(|h: String| h@),
                out@ == start + headers_bytes(hs.take(i as int)),
            decreases headers@.len() - i,
        {
            push_bytes(&mut out, headers[i].as_str().as_bytes());
            assert(hs.take(i + 1).drop_last() =~= hs.take(i as int));
            assert(hs.take(i + 1).last() == headers@[i as int]@);
            i = i + 1;
        }
        assert(hs.take(headers@.len() as int) =~= hs);
        let crlf = "\r\n";
        proof {
            reveal_strlit("\r\n");
        }
        assert(crlf@ =~= seq!['\r', '\n']);
        push_bytes(&mut out, crlf.as_bytes());
        push_bytes(&mut out, body);
        out
    }

    /// The reply that tells a CONNECT client its tunnel is open.
    pub fn connect_established_reply() -> (r: Vec<u8>)
        ensures
            r@ == encode_utf8("HTTP/1.1 200 Connection Established\r\n\r\n"@),
    {
        let mut out: Vec<u8> = Vec::new();
        push_bytes(&mut out, "HTTP/1.1 200 Connection Established\r\n\r\n".as_bytes());
        out
    }
}

/// Appends `b` to `out`.
pub fn push_bytes(out: &mut Vec<u8>, b: &[u8])
    ensures
        final(out)@ == old(out)@ + b@,
{
    let mut i: usize = 0;
    while i < b.len()
        invariant
            i <= b@.len(),
            out@ == old(out)@ + b@.take(i as int),
        decreases b@.len() - i,
    {
        out.push(b[i]);
        i = i + 1;
        assert(b@.take(i as int) =~= b@.take(i - 1 as int).push(b@[i - 1]));
    }
    assert(b@.take(b@.len() as int) =~= b@);
}

/// The first piece of splitting `s` at `c` is the text before the first `c`:
/// a prefix of `s`, followed by `c` when there are further pieces.
proof fn lemma_split_first_piece(s: Seq<char>, c: char)
    ensures
        split_char(s, c).len() >= 1,
        split_char(s, c)[0].len() <= s.len(),
        split_char(s, c)[0] =~= s.take(split_char(s, c)[0].len() as int),
        split_char(s, c).len() >= 2 ==> split_char(s, c)[0].len() < s.len() && s[split_char(
            s,
            c,
        )[0].len() as int] == c,
    decreases s.len(),
{
    lemma_split_nonempty(s, c);
    if s.len() > 0 {
        let tail = s.drop_first();
        lemma_split_first_piece(tail, c);
        if s[0] != c {
            let rest = split_char(tail, c);
            let m = rest[0].len() as int;
            assert(split_char(s, c)[0] == seq![s[0]] + rest[0]);
            assert(seq![s[0]] + tail.take(m) =~= s.take(m + 1));
            if rest.len() >= 2 {
                assert(s[m + 1] == tail[m]);
            }
        } else {
            assert(split_char(s, c)[0] =~= Seq::<char>::empty());
        }
    }
}

/// A CONNECT target written as `host:port`, with a host that holds no `:`,
/// parses back to that host and port.
pub proof fn law_host_port_roundtrip(host: Seq<char>, port: u16)
    requires
        lacks(host, ':'),
    ensures
        spec_host_port(host + seq![':'] + decimal(port as nat)) == Ok::<(Seq<char>, u16), Seq<char>>((host, port)),
{
    let d = decimal(port as nat);
    let s = host + seq![':'] + d;
    let k = host.len() as int;
    lemma_decimal_digits(port as nat);
    assert(lacks(d, ':')) by {
        assert forall|i: int| 0 <= i < d.len() implies d[i] != ':' by {
            assert(is_ascii_digit(d[i]));
        }
    }
    // Not the bracketed form: a `]` in `s` lies within the host, so the text
    // it closes holds no `:`.
    if s.len() > 0 && s[0] == '[' {
        let t = s.skip(1);
        lemma_split_first_piece(t, ']');
        let inner = split_char(t, ']');
        let m = inner[0].len() as int;
        if inner.len() >= 2 {
            assert(t[m] == s[m + 1]);
            assert(m + 1 < k) by {
                if m + 1 == k {
                    assert(s[k] == ':');
                } else if m + 1 > k {
                    assert(s[m + 1] == d[m - k]);
                    assert(is_ascii_digit(d[m - k]));
                }
            }
            assert forall|i: int| 0 <= i < m implies inner[0][i] != ':' by {
                assert(inner[0][i] == t[i]);
                assert(t[i] == host[i + 1]);
            }
        }
    }
    assert(!is_bracketed_ipv6(s));
    assert(s[k] == ':');
    assert(s.take(k) =~= host);
    assert(s.skip(k + 1) =~= d);
    lemma_split_first(s, ':', k);
    lemma_split_none(d, ':');
    lemma_parse_decimal(port as nat, 65535);
    let parts = split_char(s, ':');
    assert(parts =~= seq![host, d]);
}

/// A CONNECT target written as `[addr]:port`, with an IPv6 address (one that
/// holds `:` and no `]`), parses back to that address and port.
pub proof fn law_bracketed_host_port_roundtrip(addr: Seq<char>, port: u16)
    requires
        lacks(addr, ']'),
        !lacks(addr, ':'),
    ensures
        spec_host_port(seq!['['] + addr + seq![']', ':'] + decimal(port as nat)) == Ok::<
            (Seq<char>, u16),
            Seq<char>,
        >((addr, port)),
{
    let d = decimal(port as nat);
    let s = seq!['['] + addr + seq![']', ':'] + d;
    let t = s.skip(1);
    let k = addr.len() as int;
    assert(t =~= addr + seq![']', ':'] + d);
    assert(t[k] == ']');
    assert(t.take(k) =~= addr);
    lemma_split_first(t, ']', k);
    lemma_split_nonempty(t.skip(k + 1), ']');
    let inner = split_char(t, ']');
    assert(inner[0] == addr);
    assert(s[k + 2] == ':');
    assert(is_bracketed_ipv6(s));
    assert(s.skip(k + 3) =~= d);
    lemma_parse_decimal(port as nat, 65535);
}

/// Decimal text holds neither `:` nor `/`.
proof fn lemma_decimal_lacks(n: nat)
    ensures
        lacks(decimal(n), ':'),
        lacks(decimal(n), '/'),
{
    lemma_decimal_digits(n);
    let d = decimal(n);
    assert forall|i: int| 0 <= i < d.len() implies d[i] != ':' && d[i] != '/' by {
        assert(is_ascii_digit(d[i]));
    }
}

/// An absolute URL written from a host (without `:` or `/`), an optional
/// port and an optional path parses back to them: `http://h:p/s` gives
/// `(h, p, /s)`, `http://h/s` gives `(h, 80, /s)`, and `http://h` gives
/// `(h, 80, /)`.
pub proof fn law_http_url_roundtrip(host: Seq<char>, port: u16, path: Seq<char>)
    requires
        lacks(host, ':'),
        lacks(host, '/'),
    ensures
        spec_http_url("http://"@ + host + seq![':'] + decimal(port as nat) + seq!['/'] + path)
            == Ok::<(Seq<char>, u16, Seq<char>), Seq<char>>((host, port, seq!['/'] + path)),
        spec_http_url("http://"@ + host + seq!['/'] + path) == Ok::<
            (Seq<char>, u16, Seq<char>),
            Seq<char>,
        >((host, 80, seq!['/'] + path)),
        spec_http_url("http://"@ + host) == Ok::<(Seq<char>, u16, Seq<char>), Seq<char>>(
            (host, 80, seq!['/']),
        ),
{
    reveal_strlit("http://");
    reveal_strlit("/");
    assert("/"@ =~= seq!['/']);
    let scheme = "http://"@;
    assert(scheme.len() == 7);
    let d = decimal(port as nat);
    lemma_decimal_lacks(port as nat);
    let hl = host.len() as int;
    // http://h:p/s
    let hp = host + seq![':'] + d;
    let r1 = hp + seq!['/'] + path;
    let u1 = scheme + host + seq![':'] + d + seq!['/'] + path;
    assert(u1 =~= scheme + r1);
    assert(u1.take(7) =~= scheme);
    assert(u1.skip(7) =~= r1);
    let k1 = hp.len() as int;
    assert(r1[k1] == '/');
    assert(r1.take(k1) =~= hp);
    assert(lacks(hp, '/')) by {
        assert forall|i: int| 0 <= i < hp.len() implies hp[i] != '/' by {
            if i < hl {
                assert(hp[i] == host[i]);
            } else if i > hl {
                assert(hp[i] == d[i - hl - 1]);
            }
        }
    }
    lemma_split_first(r1, '/', k1);
    lemma_split_nonempty(r1.skip(k1 + 1), '/');
    assert(r1.skip(k1 + 1) =~= path);
    assert(hp[hl] == ':');
    assert(!lacks(hp, ':'));
    assert(hp.take(hl) =~= host);
    assert(hp.skip(hl + 1) =~= d);
    lemma_split_first(hp, ':', hl);
    lemma_split_none(d, ':');
    assert(split_char(hp, ':') =~= seq![host, d]);
    lemma_parse_decimal(port as nat, 65535);
    // http://h/s
    let r2 = host + seq!['/'] + path;
    let u2 = scheme + host + seq!['/'] + path;
    assert(u2 =~= scheme + r2);
    assert(u2.take(7) =~= scheme);
    assert(u2.skip(7) =~= r2);
    assert(r2[hl] == '/');
    assert(r2.take(hl) =~= host);
    lemma_split_first(r2, '/', hl);
    lemma_split_nonempty(r2.skip(hl + 1), '/');
    assert(r2.skip(hl + 1) =~= path);
    // http://h
    let u3 = scheme + host;
    assert(u3.take(7) =~= scheme);
    assert(u3.skip(7) =~= host);
    lemma_split_none(host, '/');
}

/// Trimming a run of decimal digits with a space before it and a line end
/// after it leaves the digits.
proof fn lemma_trim_spaced_decimal(n: nat)
    ensures
        trim(seq![' '] + decimal(n) + seq!['\r', '\n']) == decimal(n),
{
    let d = decimal(n);
    lemma_decimal_digits(n);
    let x = seq![' '] + d + seq!['\r', '\n'];
    assert(is_ws(x[0]));
    assert(x.drop_first() =~= d + seq!['\r', '\n']);
    let y = d + seq!['\r', '\n'];
    assert(is_ascii_digit(d[0]));
    assert(y[0] == d[0]);
    assert(!is_ws(y[0]));
    assert(trim_start(y) == y);
    assert(trim_start(x) == trim_start(x.drop_first()));
    assert(trim_start(x) == y);
    assert(is_ws(y.last()));
    assert(y.drop_last() =~= d + seq!['\r']);
    let z = d + seq!['\r'];
    assert(is_ws(z.last()));
    assert(z.drop_last() =~= d);
    assert(is_ascii_digit(d[d.len() - 1]));
    assert(!is_ws(d.last()));
    assert(trim_end(d) == d);
    assert(trim_end(z) == d);
    assert(trim_end(y) == d);
}

/// A `Content-Length` header `name: n` (a name without `:` that reads
/// `content-length` in lower case) gives `n`, for every `n` a `usize`
/// holds, whatever the value before it.
pub proof fn law_content_length_reads_usize(name: Seq<char>, n: usize, current: usize)
    requires
        lacks(name, ':'),
        "content-length:"@.is_prefix_of(
            lowercase(name + seq![':', ' '] + decimal(n as nat) + seq!['\r', '\n']),
        ),
    ensures
        spec_content_length(name + seq![':', ' '] + decimal(n as nat) + seq!['\r', '\n'], current)
            == n,
{
    let d = decimal(n as nat);
    let line = name + seq![':', ' '] + d + seq!['\r', '\n'];
    let tail = seq![' '] + d + seq!['\r', '\n'];
    let k = name.len() as int;
    lemma_decimal_digits(n as nat);
    assert(line[k] == ':');
    assert(line.take(k) =~= name);
    assert(line.skip(k + 1) =~= tail);
    lemma_split_first(line, ':', k);
    assert(lacks(tail, ':')) by {
        assert forall|i: int| 0 <= i < tail.len() implies tail[i] != ':' by {
            if 1 <= i < 1 + d.len() {
                assert(tail[i] == d[i - 1]);
                assert(is_ascii_digit(d[i - 1]));
            }
        }
    }
    lemma_split_none(tail, ':');
    assert(split_char(line, ':') =~= seq![name, tail]);
    lemma_trim_spaced_decimal(n as nat);
    lemma_parse_decimal(n as nat, usize::MAX as nat);
}

/// A word: non-empty, without whitespace.
pub open spec fn is_word(w: Seq<char>) -> bool {
    w.len() > 0 && forall|i: int| 0 <= i < w.len() ==> !is_ws(#[trigger] w[i])
}

proof fn lemma_words_word_then(w: Seq<char>, rest: Seq<char>)
    requires
        is_word(w),
        rest.len() == 0 || is_ws(rest[0]),
    ensures
        words(w + rest) == seq![w] + words(rest),
{
    let s = w + rest;
    let m = w.len() as int;
    assert forall|i: int| 0 <= i < m implies !is_ws(#[trigger] s[i]) by {
        assert(s[i] == w[i]);
    }
    if m < s.len() {
        assert(s[m] == rest[0]);
    }
    lemma_words_first(s, m);
    assert(s.take(m) =~= w);
    assert(s.skip(m) =~= rest);
}

proof fn lemma_words_space_then(rest: Seq<char>)
    ensures
        words(seq![' '] + rest) == words(rest),
{
    let s = seq![' '] + rest;
    assert(is_ws(s.take(1)[0]));
    lemma_words_skip_ws(s, 1);
    assert(s.skip(1) =~= rest);
}

/// The request line of a forwarded request parses back into its method,
/// path and version, when each is a word.
pub proof fn law_request_line_roundtrip(method: Seq<char>, path: Seq<char>, version: Seq<char>)
    requires
        is_word(method),
        is_word(path),
        is_word(version),
    ensures
        words(method + seq![' '] + path + seq![' '] + version + seq!['\r', '\n']) == seq![
            method,
            path,
            version,
        ],
{
    let crlf = seq!['\r', '\n'];
    let tail2 = seq![' '] + version + crlf;
    let tail1 = seq![' '] + path + tail2;
    assert(all_ws(crlf)) by {
        assert(is_ws(crlf[0]));
        assert(is_ws(crlf[1]));
    }
    lemma_words_all_ws(crlf);
    lemma_words_word_then(version, crlf);
    lemma_words_space_then(version + crlf);
    assert(tail2 =~= seq![' '] + (version + crlf));
    lemma_words_word_then(path, tail2);
    lemma_words_space_then(path + tail2);
    assert(tail1 =~= seq![' '] + (path + tail2));
    lemma_words_word_then(method, tail1);
    assert(method + seq![' '] + path + seq![' '] + version + crlf =~= method + tail1);
    assert(words(method + tail1) =~= seq![method, path, version]);
}

/// A forwarded request begins with the request line written from the
/// method, the path exactly as given (query included) and the version, in
/// UTF-8; and when each of the three is a word, that line parses back to
/// them.
pub proof fn law_forwarded_request_line(
    method: Seq<char>,
    path: Seq<char>,
    version: Seq<char>,
    headers: Seq<Seq<char>>,
    body: Seq<u8>,
)
    ensures
        ({
            let line = encode_utf8(method + seq![' '] + path + seq![' '] + version + seq!['\r', '\n']);
            spec_forwarded_request(method, path, version, headers, body).take(line.len() as int) == line
        }),
        is_word(method) && is_word(path) && is_word(version) ==> words(
            method + seq![' '] + path + seq![' '] + version + seq!['\r', '\n'],
        ) == seq![method, path, version],
{
    let line = encode_utf8(method + seq![' '] + path + seq![' '] + version + seq!['\r', '\n']);
    let req = spec_forwarded_request(method, path, version, headers, body);
    assert(req.take(line.len() as int) =~= line);
    if is_word(method) && is_word(path) && is_word(version) {
        law_request_line_roundtrip(method, path, version);
    }
}

} // verus!
