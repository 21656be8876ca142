use ddns_sync::resolve::{find_record_id, find_zone_id, DnsRecordInfo, ResolveError, ZoneInfo};

fn zone(id: &str, name: &str) -> ZoneInfo {
    ZoneInfo { id: id.to_string(), name: name.to_string() }
}

fn record(id: &str, name: &str) -> DnsRecordInfo {
    DnsRecordInfo { id: id.to_string(), name: name.to_string() }
}

#[test]
fn zone_found_by_exact_name() {
    let zones = vec![zone("z1", "example.com")];
    assert!(matches!(find_zone_id(&zones, "example.com"), Ok(id) if id == "z1"));
}

#[test]
fn missing_zone_names_the_domain() {
    let zones = vec![zone("z1", "example.com")];
    match find_zone_id(&zones, "other.com") {
        Err(ResolveError::ZoneNotFound(d)) => assert_eq!(d, "other.com"),
        _ => panic!("expected a zone failure"),
    }
}

#[test]
fn zone_match_is_case_sensitive() {
    let zones = vec![zone("z1", "Example.com")];
    assert!(matches!(find_zone_id(&zones, "example.com"), Err(ResolveError::ZoneNotFound(_))));
}

#[test]
fn first_matching_zone_wins() {
    let zones = vec![zone("z0", "other.com"), zone("z1", "example.com"), zone("z2", "example.com")];
    assert!(matches!(find_zone_id(&zones, "example.com"), Ok(id) if id == "z1"));
}

#[test]
fn empty_zone_list_fails() {
    assert!(matches!(find_zone_id(&Vec::new(), "example.com"), Err(ResolveError::ZoneNotFound(_))));
}

#[test]
fn record_found_by_full_hostname() {
    let records = vec![record("r0", "example.com"), record("r1", "home.example.com")];
    assert!(matches!(find_record_id(&records, "home.example.com"), Ok(id) if id == "r1"));
}

#[test]
fn missing_record_names_the_hostname() {
    let records = vec![record("r0", "example.com")];
    match find_record_id(&records, "home.example.com") {
        Err(ResolveError::RecordNotFound(h)) => assert_eq!(h, "home.example.com"),
        _ => panic!("expected a record failure"),
    }
}
