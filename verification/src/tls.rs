//! TLS client configuration for the tunnel, with optional Encrypted Client
//! Hello, built through `rustls`; and the server name used for SNI.
use vstd::prelude::*;
use std::sync::Arc;
use rustls::client::{EchConfig, EchMode};
use rustls::{ClientConfig, RootCertStore};
use rustls_pki_types::{EchConfigListBytes, InvalidDnsNameError, ServerName};
use crate::error::ProxyError;

verus! {

#[verifier::external_type_specification]
#[verifier::external_body]
pub struct ExClientConfig(ClientConfig);

#[verifier::external_type_specification]
#[verifier::external_body]
pub struct ExRustlsError(rustls::Error);

#[verifier::external_type_specification]
#[verifier::external_body]
pub struct ExRootCertStore(RootCertStore);

#[verifier::external_type_specification]
#[verifier::external_body]
pub struct ExEchConfig(EchConfig);

#[verifier::external_type_specification]
#[verifier::external_body]
pub struct ExServerName<'a>(ServerName<'a>);

#[verifier::external_type_specification]
#[verifier::external_body]
pub struct ExInvalidDnsNameError(InvalidDnsNameError);

/// The Mozilla root certificates of `webpki_roots::TLS_SERVER_ROOTS`, as a
/// `rustls::RootCertStore`.
#[verifier::external_body]
fn webpki_root_store() -> RootCertStore {
    RootCertStore { roots: webpki_roots::TLS_SERVER_ROOTS.to_vec() }
}

/// Whether `rustls::client::EchConfig::new` accepts the ECH configuration
/// list `list` with all HPKE suites of the aws-lc-rs provider: the list
/// parses and one of its configurations (a supported version, well-formed
/// extensions) has a cipher suite that one of those HPKE suites implements.
pub uninterp spec fn ech_config_list_usable(list: Seq<u8>) -> bool;

/// `rustls::client::EchConfig::new` on an ECH configuration list, with all
/// HPKE suites of the aws-lc-rs provider. Its outcome depends on the list
/// alone (the suites are fixed): it succeeds exactly when
/// `ech_config_list_usable` holds of the list. The `EchConfig` is opaque.
#[verifier::external_body]
fn new_ech_config(config_list: Vec<u8>) -> (r: Result<EchConfig, rustls::Error>)
    ensures
        r is Ok <==> ech_config_list_usable(config_list@),
{
    EchConfig::new(
        EchConfigListBytes::from(config_list),
        rustls::crypto::aws_lc_rs::hpke::ALL_SUPPORTED_SUITES,
    )
}

/// A `rustls` client configuration as a builder chain made it, with the
/// settings that chain gave it: whether it offers Encrypted Client Hello,
/// and whether it offers TLS 1.3 only (else TLS 1.3 and 1.2).
#[derive(Debug)]
pub struct BuiltConfig {
    config: Arc<ClientConfig>,
    ech: bool,
    tls13_only: bool,
}

impl BuiltConfig {
    /// Whether the configuration offers Encrypted Client Hello.
    pub closed spec fn has_ech(self) -> bool {
        self.ech
    }

    /// Whether the configuration offers TLS 1.3 only.
    pub closed spec fn is_tls13_only(self) -> bool {
        self.tls13_only
    }
}

/// The tunnel's TLS client configuration: the `rustls` configuration, the
/// settings it was built with, and whether fingerprint randomization was
/// asked for (recorded; `rustls` itself randomizes nothing).
#[derive(Debug)]
pub struct TlsClientConfig {
    built: BuiltConfig,
    randomize_fingerprint: bool,
}

impl TlsClientConfig {
    /// Whether the configuration offers Encrypted Client Hello.
    pub closed spec fn has_ech(self) -> bool {
        self.built.has_ech()
    }

    /// Whether the configuration offers TLS 1.3 only.
    pub closed spec fn is_tls13_only(self) -> bool {
        self.built.is_tls13_only()
    }

    /// Whether fingerprint randomization was asked for.
    pub closed spec fn fingerprint_randomization(self) -> bool {
        self.randomize_fingerprint
    }

    /// The `rustls` configuration itself.
    pub closed spec fn shared(self) -> Arc<ClientConfig> {
        self.built.config
    }

    /// Whether the configuration offers Encrypted Client Hello.
    pub fn ech_enabled(&self) -> (b: bool)
        ensures
            b == self.has_ech(),
    {
        self.built.ech
    }

    /// Whether the configuration offers TLS 1.3 only.
    pub fn tls13_only(&self) -> (b: bool)
        ensures
            b == self.is_tls13_only(),
    {
        self.built.tls13_only
    }

    /// Whether fingerprint randomization was asked for.
    pub fn randomize_fingerprint(&self) -> (b: bool)
        ensures
            b == self.fingerprint_randomization(),
    {
        self.randomize_fingerprint
    }

    /// The `rustls` configuration, for a TLS connector.
    pub fn config(&self) -> (c: &Arc<ClientConfig>)
        ensures
            *c == self.shared(),
    {
        &self.built.config
    }
}

/// A `rustls::ClientConfig` that enables ECH with `ech`, built in one
/// builder chain: `builder_with_provider` (aws-lc-rs default provider),
/// `with_ech` (which enables ECH and selects TLS 1.3 only),
/// `with_root_certificates(roots)`, `with_no_client_auth`; returned with
/// those two settings recorded. The chain succeeds: `with_ech` fails only
/// through `with_protocol_versions`, which fails only when the provider lacks
/// a TLS 1.3 cipher suite or a key-exchange group for one of its suites, and
/// the aws-lc-rs default provider has TLS 1.3 suites and the X25519, P-256
/// and P-384 groups; the later steps cannot fail. Nothing else of the
/// configuration is stated: it is opaque here.
#[verifier::external_body]
fn client_config_with_ech(ech: EchConfig, roots: RootCertStore) -> (r: Result<
    BuiltConfig,
    rustls::Error,
>)
    ensures
        r is Ok,
        r matches Ok(c) ==> c.has_ech() && c.is_tls13_only(),
{
    let config = ClientConfig::builder_with_provider(Arc::new(rustls::crypto::aws_lc_rs::default_provider()))
        .with_ech(EchMode::from(ech))?
        .with_root_certificates(roots)
        .with_no_client_auth();
    Ok(BuiltConfig { config: Arc::new(config), ech: true, tls13_only: true })
}

/// A `rustls::ClientConfig` with the default protocol versions (TLS 1.3 and
/// 1.2) and no ECH, built in one builder chain: `builder_with_provider`
/// (aws-lc-rs default provider), `with_safe_default_protocol_versions`,
/// `with_root_certificates(roots)`, `with_no_client_auth`; returned with
/// those two settings recorded. The chain succeeds: the version step fails
/// only when the provider has no suite for TLS 1.3 or 1.2 or lacks a
/// key-exchange group for one of its suites, and the aws-lc-rs default
/// provider has TLS 1.3 suites, only ECDHE TLS 1.2 suites, and the X25519,
/// P-256 and P-384 groups; the later steps cannot fail. Nothing else of the
/// configuration is stated: it is opaque here.
#[verifier::external_body]
fn client_config_default(roots: RootCertStore) -> (r: Result<BuiltConfig, rustls::Error>)
    ensures
        r is Ok,
        r matches Ok(c) ==> !c.has_ech() && !c.is_tls13_only(),
{
    let config = ClientConfig::builder_with_provider(Arc::new(rustls::crypto::aws_lc_rs::default_provider()))
        .with_safe_default_protocol_versions()?
        .with_root_certificates(roots)
        .with_no_client_auth();
    Ok(BuiltConfig { config: Arc::new(config), ech: false, tls13_only: false })
}

/// Whether `rustls_pki_types::ServerName::try_from` accepts `name`: a valid
/// DNS name, or else an IP address.
pub uninterp spec fn server_name_valid(name: Seq<char>) -> bool;

/// The text that `ServerName::to_str` gives for the server name parsed from
/// `name`: the name itself for a DNS name, the address in its standard text
/// form for an IP address.
pub uninterp spec fn server_name_text(name: Seq<char>) -> Seq<char>;

/// Whether `rustls_pki_types::DnsName::try_from` accepts `name` as a DNS
/// name; `ServerName::try_from` tries that first and keeps such a name as
/// given.
pub uninterp spec fn dns_name_valid(name: Seq<char>) -> bool;

/// A server name for SNI and certificate checks, with its text.
#[derive(Debug)]
pub struct SniName {
    name: ServerName<'static>,
    text: String,
}

impl SniName {
    /// The text of the server name.
    pub closed spec fn text(self) -> Seq<char> {
        self.text@
    }

    /// The text of the server name.
    pub fn to_str(&self) -> (s: &str)
        ensures
            s@ == self.text(),
    {
        self.text.as_str()
    }

    /// The `rustls` server name, for a TLS connector.
    pub fn server_name(&self) -> &ServerName<'static> {
        &self.name
    }
}

/// `ServerName::try_from` on a string, made owned with `to_owned`, with the
/// text of `ServerName::to_str`: succeeds exactly when `server_name_valid`
/// holds of the string, and the text is `server_name_text` of it. A valid
/// DNS name becomes a `ServerName::DnsName` holding the string as given,
/// and `to_str` returns that string.
#[verifier::external_body]
fn server_name_from(name: &str) -> (r: Result<SniName, InvalidDnsNameError>)
    ensures
        r is Ok <==> server_name_valid(name@),
        r matches Ok(n) ==> n.text() == server_name_text(name@),
        r is Ok || !dns_name_valid(name@),
        r matches Ok(n) ==> (dns_name_valid(name@) ==> n.text() == name@),
{
    let parsed = ServerName::try_from(name)?;
    Ok(SniName { text: parsed.to_str().into_owned(), name: parsed.to_owned() })
}

/// A configuration error whose message is `m`.
pub open spec fn config_error(e: ProxyError, m: Seq<char>) -> bool {
    e matches ProxyError::InvalidConfiguration(s) && s@ == m
}

/// The server name to present for SNI.
pub fn parse_server_name(sni: &str) -> (r: Result<SniName, ProxyError>)
    ensures
        r is Ok <==> server_name_valid(sni@),
        r matches Ok(n) ==> n.text() == server_name_text(sni@),
        dns_name_valid(sni@) ==> (r matches Ok(n) && n.text() == sni@),
        r matches Err(e) ==> config_error(e, "Invalid server name for SNI"@),
{
    match server_name_from(sni) {
        Ok(name) => Ok(name),
        Err(_) => Err(ProxyError::InvalidConfiguration("Invalid server name for SNI".to_owned())),
    }
}

/// Builder for the tunnel's TLS client configuration.
pub struct TlsConfigBuilder {
    enable_ech: bool,
    enable_fingerprint_randomization: bool,
    ech_config: Option<Vec<u8>>,
}

impl TlsConfigBuilder {
    pub closed spec fn ech_enabled(self) -> bool {
        self.enable_ech
    }

    pub closed spec fn fingerprint_randomization(self) -> bool {
        self.enable_fingerprint_randomization
    }

    /// The ECH configuration list set so far.
    pub closed spec fn ech_config_list(self) -> Option<Seq<u8>> {
        match self.ech_config {
            Some(v) => Some(v@),
            None => None,
        }
    }

    /// Whether the configuration built will use ECH: it is enabled and a
    /// configuration list is set.
    pub open spec fn uses_ech(self) -> bool {
        self.ech_enabled() && self.ech_config_list() is Some
    }

    /// ECH and fingerprint randomization on, no ECH configuration yet.
    pub fn new() -> (b: Self)
        ensures
            b.ech_enabled(),
            b.fingerprint_randomization(),
            b.ech_config_list() is None,
    {
        TlsConfigBuilder {
            enable_ech: true,
            enable_fingerprint_randomization: true,
            ech_config: None,
        }
    }

    /// Enables or disables ECH.
    pub fn with_ech(self, enable: bool) -> (b: Self)
        ensures
            b.ech_enabled() == enable,
            b.fingerprint_randomization() == self.fingerprint_randomization(),
            b.ech_config_list() == self.ech_config_list(),
    {
        TlsConfigBuilder { enable_ech: enable, ..self }
    }

    /// Sets whether TLS fingerprint randomization is asked for. The flag is
    /// recorded in the configuration built; `rustls` itself performs no
    /// fingerprint randomization.
    pub fn with_fingerprint_randomization(self, enable: bool) -> (b: Self)
        ensures
            b.ech_enabled() == self.ech_enabled(),
            b.fingerprint_randomization() == enable,
            b.ech_config_list() == self.ech_config_list(),
    {
        TlsConfigBuilder { enable_fingerprint_randomization: enable, ..self }
    }

    /// Sets the ECH configuration list.
    pub fn with_ech_config(self, config: Vec<u8>) -> (b: Self)
        ensures
            b.ech_enabled() == self.ech_enabled(),
            b.fingerprint_randomization() == self.fingerprint_randomization(),
            b.ech_config_list() == Some(config@),
    {
        TlsConfigBuilder { ech_config: Some(config), ..self }
    }

    /// Whether ECH is enabled: the ECH configuration is then fetched before
    /// building.
    pub fn is_ech_enabled(&self) -> (b: bool)
        ensures
            b == self.ech_enabled(),
    {
        self.enable_ech
    }

    /// Whether fingerprint randomization is asked for.
    pub fn is_fingerprint_randomization_enabled(&self) -> (b: bool)
        ensures
            b == self.fingerprint_randomization(),
    {
        self.enable_fingerprint_randomization
    }

    /// Builds the client configuration with the Mozilla root certificates:
    /// TLS 1.3 only with ECH when ECH is enabled, a configuration list is set
    /// and `rustls` finds a usable configuration in it; otherwise (ECH off,
    /// no list, or a list `rustls` cannot use) the default protocol versions
    /// without ECH. The list is ignored when ECH is disabled. The fingerprint
    /// randomization flag is carried into the configuration.
    pub fn build(self) -> (r: Result<TlsClientConfig, ProxyError>)
        ensures
            r is Ok,
            r matches Ok(c) ==> c.has_ech() == (self.uses_ech() && ech_config_list_usable(
                self.ech_config_list()->Some_0,
            )),
            r matches Ok(c) ==> c.is_tls13_only() == c.has_ech(),
            r matches Ok(c) ==> c.fingerprint_randomization() == self.fingerprint_randomization(),
            !self.ech_enabled() ==> (r matches Ok(c) && !c.has_ech() && !c.is_tls13_only()),
            self.ech_config_list() is None ==> (r matches Ok(c) && !c.has_ech()
                && !c.is_tls13_only()),
    {
        let roots = webpki_root_store();
        let randomize = self.enable_fingerprint_randomization;
        let use_ech = self.enable_ech && self.ech_config.is_some();
        if use_ech {
            let list = match self.ech_config {
                Some(list) => list,
                None => Vec::new(),
            };
            match new_ech_config(list) {
                Ok(ech) => {
                    return finish_config(client_config_with_ech(ech, roots), true, randomize);
                },
                Err(_) => {},
            }
        }
        finish_config(client_config_default(roots), false, randomize)
    }
}

/// ECH is used only when it is enabled and a configuration list is set: a
/// builder with ECH disabled builds without ECH whatever list it holds, and
/// one without a list builds without ECH.
pub proof fn law_ech_needs_enabling_and_a_list(b: TlsConfigBuilder)
    ensures
        !b.ech_enabled() ==> !b.uses_ech(),
        b.ech_config_list() is None ==> !b.uses_ech(),
        b.uses_ech() ==> b.ech_enabled() && b.ech_config_list() is Some,
{
}

/// What building gives for the outcome of the `rustls` builder chain: the
/// configuration, with the fingerprint randomization flag recorded, or the
/// configuration error of the path taken (with or without ECH).
pub fn finish_config(
    built: Result<BuiltConfig, rustls::Error>,
    with_ech: bool,
    randomize_fingerprint: bool,
) -> (r: Result<TlsClientConfig, ProxyError>)
    ensures
        built is Ok <==> r is Ok,
        r matches Ok(c) ==> built matches Ok(b) && c.has_ech() == b.has_ech()
            && c.is_tls13_only() == b.is_tls13_only() && c.fingerprint_randomization()
            == randomize_fingerprint,
        r matches Err(e) ==> config_error(
            e,
            if with_ech {
                "Failed to build TLS config with ECH"@
            } else {
                "Failed to build TLS config"@
            },
        ),
{
    match built {
        Ok(b) => Ok(TlsClientConfig { built: b, randomize_fingerprint }),
        Err(_) => {
            if with_ech {
                Err(ProxyError::InvalidConfiguration("Failed to build TLS config with ECH".to_owned()))
            } else {
                Err(ProxyError::InvalidConfiguration("Failed to build TLS config".to_owned()))
            }
        },
    }
}

impl Default for TlsConfigBuilder {
    fn default() -> (b: Self)
        ensures
            b.ech_enabled(),
            b.fingerprint_randomization(),
            b.ech_config_list() is None,
    {
        TlsConfigBuilder::new()
    }
}

/// A TLS configuration without ECH (TLS 1.3 and 1.2), with the fingerprint
/// randomization flag recorded; building it does not fail.
pub fn create_tls_config_without_ech(enable_fingerprint_randomization: bool) -> (r: Result<
    TlsClientConfig,
    ProxyError,
>)
    ensures
        r is Ok,
        r matches Ok(c) ==> !c.has_ech() && !c.is_tls13_only(),
        r matches Ok(c) ==> c.fingerprint_randomization() == enable_fingerprint_randomization,
{
    TlsConfigBuilder::new().with_ech(false).with_fingerprint_randomization(
        enable_fingerprint_randomization,
    ).build()
}

/// The TLS configuration of the standalone WebSocket client: default
/// protocol versions (TLS 1.3 and 1.2), no ECH, the Mozilla root
/// certificates, and the fingerprint randomization flag recorded (`rustls`
/// itself randomizes nothing); building it does not fail.
pub fn create_tls_config(randomize_fingerprint: bool) -> (r: Result<TlsClientConfig, ProxyError>)
    ensures
        r is Ok,
        r matches Ok(c) ==> !c.has_ech() && !c.is_tls13_only(),
        r matches Ok(c) ==> c.fingerprint_randomization() == randomize_fingerprint,
{
    create_tls_config_without_ech(randomize_fingerprint)
}

} // verus!
