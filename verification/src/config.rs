//! Client configuration and its defaults.
use vstd::prelude::*;

verus! {

/// The whole client configuration.
#[derive(Debug, Clone)]
pub struct Config {
    pub server: ServerConfig,
    pub tls: TlsConfig,
    pub proxy: ProxyConfig,
    pub multiplexing: MultiplexingConfig,
    pub logging: LoggingConfig,
}

/// Where the tunnel server is and how to authenticate to it.
#[derive(Debug, Clone)]
pub struct ServerConfig {
    pub address: String,
    pub port: u16,
    pub uuid: String,
    pub ws_path: String,
}

/// TLS settings for the tunnel connection.
#[derive(Debug, Clone)]
pub struct TlsConfig {
    pub randomize_fingerprint: bool,
    pub enable_ech: bool,
    pub sni: String,
}

/// The local proxy listeners.
#[derive(Debug, Clone)]
pub struct ProxyConfig {
    pub socks5_enabled: bool,
    pub socks5_bind: String,
    pub socks5_port: u16,
    pub http_enabled: bool,
    pub http_bind: String,
    pub http_port: u16,
}

/// Stream multiplexing settings.
#[derive(Debug, Clone)]
pub struct MultiplexingConfig {
    pub max_streams: usize,
    pub window_size: u32,
    pub keep_alive_interval: u64,
}

/// Logging settings.
#[derive(Debug, Clone)]
pub struct LoggingConfig {
    pub level: String,
}

impl Config {
    /// The configuration used when no file is given.
    pub fn default() -> (c: Self)
        ensures
            c.server.address@ == "example.com"@,
            c.server.port == 443,
            c.server.uuid@ == "d342d11e-d424-4583-b36e-524ab1f0afa4"@,
            c.server.ws_path@ == "/"@,
            c.tls.randomize_fingerprint,
            c.tls.enable_ech,
            c.tls.sni@ == "example.com"@,
            c.proxy.socks5_enabled,
            c.proxy.socks5_bind@ == "127.0.0.1"@,
            c.proxy.socks5_port == 1080,
            c.proxy.http_enabled,
            c.proxy.http_bind@ == "127.0.0.1"@,
            c.proxy.http_port == 8080,
            c.multiplexing.max_streams == 256,
            c.multiplexing.window_size == 1048576,
            c.multiplexing.keep_alive_interval == 30,
            c.logging.level@ == "info"@,
    {
        Config {
            server: ServerConfig {
                address: "example.com".to_owned(),
                port: 443,
                uuid: "d342d11e-d424-4583-b36e-524ab1f0afa4".to_owned(),
                ws_path: "/".to_owned(),
            },
            tls: TlsConfig {
                randomize_fingerprint: true,
                enable_ech: true,
                sni: "example.com".to_owned(),
            },
            proxy: ProxyConfig {
                socks5_enabled: true,
                socks5_bind: "127.0.0.1".to_owned(),
                socks5_port: 1080,
                http_enabled: true,
                http_bind: "127.0.0.1".to_owned(),
                http_port: 8080,
            },
            multiplexing: MultiplexingConfig {
                max_streams: 256,
                window_size: 1048576,
                keep_alive_interval: 30,
            },
            logging: LoggingConfig { level: "info".to_owned() },
        }
    }
}

} // verus!
