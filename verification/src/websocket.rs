//! The WebSocket client of the standalone proxy: its server URL.
use vstd::prelude::*;
use crate::config::Config;
use crate::error::ProxyError;
use crate::text::{chars_of, decimal, push_decimal, push_str, string_of};
use crate::web_url::{parse_url, url_parses, url_serialization, ParsedUrl};

verus! {

/// WebSocket client for the proxy server.
pub struct WebSocketClient {
    pub config: Config,
}

/// The server URL: `wss` on port 443 and `ws` otherwise, then the address,
/// the port, the WebSocket path and the UUID.
pub open spec fn spec_server_url(c: Config) -> Seq<char> {
    (if c.server.port == 443 {
        "wss"@
    } else {
        "ws"@
    }) + "://"@ + c.server.address@ + seq![':'] + decimal(c.server.port as nat)
        + c.server.ws_path@ + c.server.uuid@
}

impl WebSocketClient {
    pub fn new(config: Config) -> (c: Self)
        ensures
            c.config == config,
    {
        WebSocketClient { config }
    }

    /// The server URL in text.
    pub fn server_url_text(&self) -> (s: String)
        ensures
            s@ == spec_server_url(self.config),
    {
        let mut v = if self.config.server.port == 443 {
            chars_of("wss")
        } else {
            chars_of("ws")
        };
        push_str(&mut v, "://");
        push_str(&mut v, self.config.server.address.as_str());
        v.push(':');
        push_decimal(&mut v, self.config.server.port as u64);
        push_str(&mut v, self.config.server.ws_path.as_str());
        push_str(&mut v, self.config.server.uuid.as_str());
        assert(v@ =~= spec_server_url(self.config));
        string_of(&v)
    }

    /// The server URL, parsed by the URL parser, with its serialization.
    pub fn build_server_url(&self) -> (r: Result<ParsedUrl, ProxyError>)
        ensures
            r is Ok <==> url_parses(spec_server_url(self.config)),
            r matches Ok(u) ==> u.text() == url_serialization(spec_server_url(self.config)),
            r matches Err(e) ==> (e matches ProxyError::InvalidConfiguration(m) && m@
                == "Invalid server URL"@),
    {
        let text = self.server_url_text();
        match parse_url(text.as_str()) {
            Ok(u) => Ok(u),
            Err(_) => Err(ProxyError::InvalidConfiguration("Invalid server URL".to_owned())),
        }
    }
}

} // verus!
