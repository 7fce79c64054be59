//! The tunnel's connection settings and the decisions made while connecting:
//! which name to resolve, which address to use, and the WebSocket URL.
use vstd::prelude::*;
use crate::error::ProxyError;
use crate::socks5::IpAddress;
use crate::text::{chars_of, decimal, labeled_text, push_decimal, push_str, string_of};
use crate::web_url::{parse_url, url_parses, url_serialization, ParsedUrl};

verus! {

/// WebSocket tunnel configuration.
#[derive(Debug, Clone)]
pub struct TunnelConfig {
    /// The real server domain, used for SNI, certificate checks, the URL and
    /// the Host header.
    pub server_domain: String,
    /// An IP address or CNAME to connect to in place of the server domain.
    pub target: Option<String>,
    /// Server port (usually 443).
    pub port: u16,
    /// WebSocket path.
    pub ws_path: String,
    /// UUID for authentication.
    pub uuid: Option<String>,
}

/// The WebSocket URL: `wss://` with the server domain, port and path.
pub open spec fn spec_websocket_url(c: TunnelConfig) -> Seq<char> {
    "wss://"@ + c.server_domain@ + seq![':'] + decimal(c.port as nat) + c.ws_path@
}

/// The name resolved to reach the server: the target when there is one,
/// else the server domain.
pub open spec fn spec_resolve_name(c: TunnelConfig) -> Seq<char> {
    match c.target {
        Some(t) => t@,
        None => c.server_domain@,
    }
}

impl TunnelConfig {
    /// A configuration that connects straight to the server domain.
    pub fn new(server_domain: String, port: u16) -> (c: Self)
        ensures
            c.server_domain == server_domain,
            c.target is None,
            c.port == port,
            c.ws_path@ == "/"@,
            c.uuid is None,
    {
        TunnelConfig { server_domain, target: None, port, ws_path: "/".to_owned(), uuid: None }
    }

    /// A configuration that connects to `target` (a CDN address or name)
    /// while presenting the server domain.
    pub fn with_target(server_domain: String, target: String, port: u16) -> (c: Self)
        ensures
            c.server_domain == server_domain,
            c.target == Some(target),
            c.port == port,
            c.ws_path@ == "/"@,
            c.uuid is None,
    {
        TunnelConfig {
            server_domain,
            target: Some(target),
            port,
            ws_path: "/".to_owned(),
            uuid: None,
        }
    }

    pub fn with_ws_path(self, path: String) -> (c: Self)
        ensures
            c.ws_path == path,
            c.server_domain == self.server_domain,
            c.target == self.target,
            c.port == self.port,
            c.uuid == self.uuid,
    {
        let mut c = self;
        c.ws_path = path;
        c
    }

    pub fn with_uuid(self, uuid: String) -> (c: Self)
        ensures
            c.uuid == Some(uuid),
            c.server_domain == self.server_domain,
            c.target == self.target,
            c.port == self.port,
            c.ws_path == self.ws_path,
    {
        let mut c = self;
        c.uuid = Some(uuid);
        c
    }

    /// Adds the UUID given on the command line, if one is given and it is
    /// not empty (an empty UUID is no UUID).
    pub fn with_optional_uuid(self, uuid: Option<String>) -> (c: Self)
        ensures
            c.uuid == (match uuid {
                Some(u) => if u@.len() > 0 {
                    Some(u)
                } else {
                    self.uuid
                },
                None => self.uuid,
            }),
            c.server_domain == self.server_domain,
            c.target == self.target,
            c.port == self.port,
            c.ws_path == self.ws_path,
    {
        match uuid {
            Some(u) => {
                if u.as_str().unicode_len() > 0 {
                    self.with_uuid(u)
                } else {
                    self
                }
            },
            None => self,
        }
    }

    /// The name to resolve before connecting.
    pub fn resolve_name(&self) -> (s: &String)
        ensures
            s@ == spec_resolve_name(*self),
    {
        match &self.target {
            Some(t) => t,
            None => &self.server_domain,
        }
    }

    /// The WebSocket URL in text.
    pub fn websocket_url_text(&self) -> (s: String)
        ensures
            s@ == spec_websocket_url(*self),
    {
        let mut v = chars_of("wss://");
        push_str(&mut v, self.server_domain.as_str());
        v.push(':');
        push_decimal(&mut v, self.port as u64);
        push_str(&mut v, self.ws_path.as_str());
        assert(v@ =~= spec_websocket_url(*self));
        string_of(&v)
    }

    /// The headers added to the WebSocket upgrade request, in order: the UUID
    /// as `Sec-WebSocket-Protocol` when there is one, then `Host` set to the
    /// server domain.
    pub fn handshake_headers(&self) -> (h: Vec<(String, String)>)
        ensures
            h@.len() == if self.uuid is Some {
                2int
            } else {
                1int
            },
            self.uuid matches Some(u) ==> h@[0].0@ == "Sec-WebSocket-Protocol"@ && h@[0].1@ == u@,
            h@.last().0@ == "Host"@,
            h@.last().1@ == self.server_domain@,
    {
        let mut h: Vec<(String, String)> = Vec::new();
        match &self.uuid {
            Some(u) => h.push(("Sec-WebSocket-Protocol".to_owned(), u.clone())),
            None => {},
        }
        h.push(("Host".to_owned(), self.server_domain.clone()));
        h
    }

    /// The WebSocket URL, parsed by the URL parser, with its serialization.
    pub fn build_websocket_url(&self) -> (r: Result<ParsedUrl, ProxyError>)
        ensures
            r is Ok <==> url_parses(spec_websocket_url(*self)),
            r matches Ok(u) ==> u.text() == url_serialization(spec_websocket_url(*self)),
            r matches Err(e) ==> (e matches ProxyError::InvalidConfiguration(m) && m@
                == "Invalid WebSocket URL"@),
    {
        let text = self.websocket_url_text();
        match parse_url(text.as_str()) {
            Ok(u) => Ok(u),
            Err(_) => Err(ProxyError::InvalidConfiguration("Invalid WebSocket URL".to_owned())),
        }
    }
}

/// The address to connect to, among those the resolver found for `name`:
/// the first, or an error when there is none.
pub fn select_resolved_ip(name: &str, ips: &Vec<IpAddress>) -> (r: Result<IpAddress, ProxyError>)
    ensures
        ips@.len() > 0 ==> r == Ok::<IpAddress, ProxyError>(ips@[0]),
        ips@.len() == 0 ==> (r matches Err(ProxyError::TargetResolutionFailed(m)) && m@
            == "No IP addresses found for target: "@ + name@),
{
    if ips.len() == 0 {
        Err(ProxyError::TargetResolutionFailed(labeled_text("No IP addresses found for target: ", name)))
    } else {
        Ok(ips[0])
    }
}

/// The WebSocket URL names the server domain whatever target is used to
/// reach it: two configurations that differ only in target and UUID have the
/// same URL.
pub proof fn law_url_ignores_target(a: TunnelConfig, b: TunnelConfig)
    requires
        a.server_domain@ == b.server_domain@,
        a.port == b.port,
        a.ws_path@ == b.ws_path@,
    ensures
        spec_websocket_url(a) == spec_websocket_url(b),
{
}

} // verus!
