use ws_proxy::doh::{
    address_records, ech_config_from_records, merge_addresses, txt_records, DohAnswer, DohResponse,
};
use ws_proxy::error::ProxyError;
use ws_proxy::socks5::IpAddress;

fn answer(t: u16, data: &str) -> DohAnswer {
    DohAnswer { name: "n".to_string(), record_type: t, ttl: 60, data: data.to_string() }
}

#[test]
fn txt_records_are_filtered() {
    let resp = DohResponse {
        status: 0,
        answer: Some(vec![answer(16, "\"abc\""), answer(1, "1.2.3.4"), answer(16, "def")]),
    };
    assert_eq!(txt_records(&resp).unwrap(), vec!["\"abc\"".to_string(), "def".to_string()]);
    let empty = DohResponse { status: 0, answer: None };
    assert_eq!(txt_records(&empty).unwrap(), Vec::<String>::new());
}

#[test]
fn failed_status_is_an_error() {
    match txt_records(&DohResponse { status: 3, answer: None }) {
        Err(ProxyError::DohQueryFailed(m)) => assert_eq!(m, "DoH query failed with status: 3"),
        other => panic!("unexpected {:?}", other),
    }
    match address_records(&DohResponse { status: -2, answer: None }, false) {
        Err(ProxyError::DohQueryFailed(m)) => assert_eq!(m, "DoH A query failed with status: -2"),
        other => panic!("unexpected {:?}", other),
    }
    match address_records(&DohResponse { status: 2, answer: None }, true) {
        Err(ProxyError::DohQueryFailed(m)) => assert_eq!(m, "DoH AAAA query failed with status: 2"),
        other => panic!("unexpected {:?}", other),
    }
}

#[test]
fn address_records_by_type() {
    let resp = DohResponse {
        status: 0,
        answer: Some(vec![answer(5, "cname."), answer(1, "1.2.3.4"), answer(28, "::1")]),
    };
    assert_eq!(address_records(&resp, false).unwrap(), vec!["1.2.3.4".to_string()]);
    assert_eq!(address_records(&resp, true).unwrap(), vec!["::1".to_string()]);
}

#[test]
fn ech_config_first_decodable_record() {
    assert_eq!(ech_config_from_records(&vec!["\"AAEC\"".to_string()]).unwrap(), vec![0, 1, 2]);
    assert_eq!(
        ech_config_from_records(&vec!["!!!".to_string(), "AQID".to_string()]).unwrap(),
        vec![1, 2, 3]
    );
}

#[test]
fn ech_config_errors() {
    match ech_config_from_records(&vec![]) {
        Err(ProxyError::DohQueryFailed(m)) => assert_eq!(m, "No TXT records found for cloudflare-ech.com"),
        other => panic!("unexpected {:?}", other),
    }
    match ech_config_from_records(&vec!["***".to_string()]) {
        Err(ProxyError::DohQueryFailed(m)) => assert_eq!(m, "No valid ECH config found in TXT records"),
        other => panic!("unexpected {:?}", other),
    }
}

#[test]
fn merged_addresses() {
    let a = IpAddress::V4([1, 2, 3, 4]);
    let b = IpAddress::V6([0; 16]);
    assert_eq!(merge_addresses("d", Some(vec![a]), Some(vec![b])).unwrap(), vec![a, b]);
    assert_eq!(merge_addresses("d", None, Some(vec![b])).unwrap(), vec![b]);
    match merge_addresses("example.com", Some(vec![]), None) {
        Err(ProxyError::DohQueryFailed(m)) => assert_eq!(m, "No IP addresses found for example.com"),
        other => panic!("unexpected {:?}", other),
    }
}
