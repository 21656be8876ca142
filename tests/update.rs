use ddns_sync::api::{bearer, dns_record_url, dns_records_url, zones_url};
use ddns_sync::update::{build_update_request, interpret_update, UpdateError, UpdateResponse};

#[test]
fn request_carries_fixed_type_and_ttl() {
    let r = build_update_request("home.example.com", "1.2.3.4", true);
    assert_eq!(r.record_type, "A");
    assert_eq!(r.name, "home.example.com");
    assert_eq!(r.content, "1.2.3.4");
    assert_eq!(r.ttl, 1);
    assert!(r.proxied);
}

#[test]
fn explicit_success_is_ok() {
    let reply = Ok(UpdateResponse { success: true, errors: Vec::new() });
    assert!(interpret_update(reply).is_ok());
}

#[test]
fn explicit_failure_is_rejection_with_details() {
    let reply = Ok(UpdateResponse { success: false, errors: vec!["{\"code\":1003}".to_string()] });
    match interpret_update(reply) {
        Err(UpdateError::Rejected(es)) => assert_eq!(es, vec!["{\"code\":1003}".to_string()]),
        _ => panic!("expected a rejection"),
    }
}

#[test]
fn transport_failure_is_error() {
    match interpret_update(Err("connection refused".to_string())) {
        Err(UpdateError::Transport(m)) => assert_eq!(m, "connection refused"),
        _ => panic!("expected a transport failure"),
    }
}

#[test]
fn endpoints_are_built_from_ids() {
    assert_eq!(zones_url(), "https://api.cloudflare.com/client/v4/zones");
    assert_eq!(dns_records_url("z1"), "https://api.cloudflare.com/client/v4/zones/z1/dns_records");
    assert_eq!(
        dns_record_url("z1", "r1"),
        "https://api.cloudflare.com/client/v4/zones/z1/dns_records/r1"
    );
    assert_eq!(bearer("tok"), "Bearer tok");
}
