use ddns_sync::domain::apex_domain;

#[test]
fn apex_of_subdomain_is_last_two_labels() {
    assert_eq!(apex_domain("home.example.com"), Some("example.com".to_string()));
}

#[test]
fn apex_of_apex_is_itself() {
    assert_eq!(apex_domain("example.com"), Some("example.com".to_string()));
}

#[test]
fn single_label_is_rejected() {
    assert_eq!(apex_domain("localhost"), None);
    assert_eq!(apex_domain(""), None);
}

#[test]
fn deep_hostname_keeps_only_two_labels() {
    assert_eq!(apex_domain("a.b.c.example.org"), Some("example.org".to_string()));
}

#[test]
fn multi_label_suffix_is_not_recognised() {
    assert_eq!(apex_domain("www.example.co.uk"), Some("co.uk".to_string()));
}

#[test]
fn empty_labels_are_kept() {
    assert_eq!(apex_domain("host."), Some("host.".to_string()));
    assert_eq!(apex_domain(".com"), Some(".com".to_string()));
}
