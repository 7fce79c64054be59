use ws_proxy::error::ProxyError;
use ws_proxy::tls::{
    create_tls_config, create_tls_config_without_ech, finish_config, parse_server_name, TlsConfigBuilder,
};

#[test]
fn test_parse_server_name() {
    let name = parse_server_name("example.com").unwrap();
    assert_eq!(name.to_str(), "example.com");
}

#[test]
fn server_name_may_be_an_address() {
    let name = parse_server_name("1.1.1.1").unwrap();
    assert_eq!(name.to_str(), "1.1.1.1");
}

#[test]
fn server_name_rejects_garbage() {
    match parse_server_name("exa mple") {
        Err(ProxyError::InvalidConfiguration(m)) => assert_eq!(m, "Invalid server name for SNI"),
        other => panic!("unexpected {:?}", other.map(|_| ())),
    }
}

#[test]
fn test_build_config_without_ech() {
    let config = TlsConfigBuilder::new().with_ech(false).build();
    assert!(config.is_ok());
    let config = config.unwrap();
    assert!(!config.ech_enabled());
    assert!(!config.tls13_only());
}

#[test]
fn builder_flags() {
    let b = TlsConfigBuilder::new();
    assert!(b.is_ech_enabled());
    assert!(b.is_fingerprint_randomization_enabled());
    let b = b.with_ech(false).with_fingerprint_randomization(false);
    assert!(!b.is_ech_enabled());
    assert!(!b.is_fingerprint_randomization_enabled());
    let d: TlsConfigBuilder = Default::default();
    assert!(d.is_ech_enabled());
}

#[test]
fn ech_enabled_without_config_builds_plain() {
    let c = TlsConfigBuilder::new().build().unwrap();
    assert!(!c.ech_enabled());
}

#[test]
fn unusable_ech_config_falls_back_to_plain_tls() {
    let c = TlsConfigBuilder::new().with_ech_config(vec![0, 1, 2]).build().unwrap();
    assert!(!c.ech_enabled());
    assert!(!c.tls13_only());
}

#[test]
fn ech_config_ignored_when_disabled() {
    let r = TlsConfigBuilder::new().with_ech_config(vec![1, 2, 3]).with_ech(false).build();
    assert!(!r.unwrap().ech_enabled());
}

#[test]
fn test_create_tls_config() {
    let config = create_tls_config(true).unwrap();
    assert!(config.randomize_fingerprint());
}

#[test]
fn fingerprint_flag_is_carried_into_the_configuration() {
    let c = TlsConfigBuilder::new().with_fingerprint_randomization(false).build().unwrap();
    assert!(!c.randomize_fingerprint());
    assert!(!c.ech_enabled());
    let c = TlsConfigBuilder::new().with_ech(false).build().unwrap();
    assert!(c.randomize_fingerprint());
    assert!(!create_tls_config(false).unwrap().randomize_fingerprint());
    assert!(create_tls_config_without_ech(true).unwrap().randomize_fingerprint());
}

#[test]
fn helper_configs_build() {
    let c = create_tls_config(false).unwrap();
    assert!(!c.ech_enabled() && !c.tls13_only());
    assert!(c.config().alpn_protocols.is_empty());
    assert!(!create_tls_config_without_ech(false).unwrap().ech_enabled());
}

#[test]
fn builder_outcome_is_mapped() {
    let failed = || Err(rustls::Error::General("no".to_string()));
    match finish_config(failed(), true, true) {
        Err(ProxyError::InvalidConfiguration(m)) => assert_eq!(m, "Failed to build TLS config with ECH"),
        other => panic!("unexpected {:?}", other.map(|_| ())),
    }
    match finish_config(failed(), false, false) {
        Err(ProxyError::InvalidConfiguration(m)) => assert_eq!(m, "Failed to build TLS config"),
        other => panic!("unexpected {:?}", other.map(|_| ())),
    }
}

#[test]
fn server_name_text_of_an_ipv6_address() {
    assert_eq!(parse_server_name("::1").unwrap().to_str(), "::1");
    assert_eq!(parse_server_name("0:0::0:1").unwrap().to_str(), "::1");
}
