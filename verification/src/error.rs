use vstd::prelude::*;

verus! {

/// Errors raised by the proxy client.
#[derive(Debug)]
pub enum ProxyError {
    DohQueryFailed(String),
    EchConfigInvalid,
    TlsHandshakeFailed(String),
    WebSocketUpgradeFailed(String),
    TargetResolutionFailed(String),
    TcpConnectionFailed(String),
    Socks5ProtocolError(String),
    HttpProtocolError(String),
    TunnelError(String),
    IoError(std::io::Error),
    InvalidConfiguration(String),
}

#[verifier::external_type_specification]
#[verifier::external_body]
pub struct ExIoError(std::io::Error);

} // verus!
