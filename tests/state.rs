use ddns_sync::state::IpState;

#[test]
fn new_state_is_empty() {
    let s = IpState::new();
    assert_eq!(s.get("home.example.com"), None);
    assert!(s.entries().is_empty());
}

#[test]
fn set_then_get() {
    let mut s = IpState::new();
    s.set("home.example.com", "1.2.3.4");
    s.set("nas.example.com", "5.6.7.8");
    s.set("home.example.com", "9.9.9.9");
    assert_eq!(s.get("home.example.com"), Some("9.9.9.9".to_string()));
    assert_eq!(s.get("nas.example.com"), Some("5.6.7.8".to_string()));
    assert_eq!(s.entries().len(), 2);
}

#[test]
fn missing_text_is_empty_state() {
    let s = IpState::load(None);
    assert!(s.entries().is_empty());
}

#[test]
fn invalid_text_is_empty_state() {
    assert!(IpState::load(Some("not json".to_string())).entries().is_empty());
    assert!(IpState::parse("[1, 2]").entries().is_empty());
    assert!(IpState::parse("").entries().is_empty());
}

#[test]
fn valid_text_is_parsed() {
    let s = IpState::parse("{\"home.example.com\": \"1.2.3.4\", \"b.example.com\": \"5.6.7.8\"}");
    assert_eq!(s.get("home.example.com"), Some("1.2.3.4".to_string()));
    assert_eq!(s.get("b.example.com"), Some("5.6.7.8".to_string()));
    assert_eq!(s.get("c.example.com"), None);
}

#[test]
fn from_pairs_later_pair_wins() {
    let s = IpState::from_pairs(vec![
        ("a".to_string(), "1".to_string()),
        ("a".to_string(), "2".to_string()),
    ]);
    assert_eq!(s.get("a"), Some("2".to_string()));
    assert_eq!(s.entries().len(), 1);
}

#[test]
fn render_is_pretty_json() {
    let mut s = IpState::new();
    s.set("home.example.com", "1.2.3.4");
    assert_eq!(s.render(), Some("{\n  \"home.example.com\": \"1.2.3.4\"\n}".to_string()));
}

#[test]
fn render_then_parse_round_trips() {
    let mut s = IpState::new();
    s.set("b.example.com", "5.6.7.8");
    s.set("a.example.com", "1.2.3.4");
    let text = s.render().unwrap();
    let t = IpState::parse(&text);
    assert_eq!(t.get("a.example.com"), Some("1.2.3.4".to_string()));
    assert_eq!(t.get("b.example.com"), Some("5.6.7.8".to_string()));
}

#[test]
fn render_of_empty_state_is_empty_object() {
    assert_eq!(IpState::new().render(), Some("{}".to_string()));
}
