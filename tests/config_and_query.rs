use hello_server::config::{parse_port, port_setting, PortError, DEFAULT_PORT};
use hello_server::query::{greeting_name, greeting_name_for_query, parse_query, query_value};
use hello_server::text::{same_text, starts_with};

#[test]
fn absent_port_uses_default() {
    assert_eq!(port_setting(None), Ok(8080));
    assert_eq!(DEFAULT_PORT, 8080);
}

#[test]
fn numeric_port_is_read() {
    assert_eq!(port_setting(Some("3000")), Ok(3000));
    assert_eq!(parse_port("0"), Ok(0));
    assert_eq!(parse_port("65535"), Ok(65535));
    assert_eq!(parse_port("+80"), Ok(80));
    assert_eq!(parse_port("0080"), Ok(80));
}

#[test]
fn non_numeric_port_is_refused() {
    assert_eq!(port_setting(Some("abc")), Err(PortError::InvalidDigit));
    assert_eq!(parse_port("80a"), Err(PortError::InvalidDigit));
    assert_eq!(parse_port(" 80"), Err(PortError::InvalidDigit));
    assert_eq!(parse_port("-1"), Err(PortError::InvalidDigit));
    assert_eq!(parse_port("++1"), Err(PortError::InvalidDigit));
}

#[test]
fn empty_port_is_refused() {
    assert_eq!(port_setting(Some("")), Err(PortError::Empty));
    assert_eq!(parse_port("+"), Err(PortError::Empty));
}

#[test]
fn port_above_range_is_refused() {
    assert_eq!(parse_port("65536"), Err(PortError::Overflow));
    assert_eq!(parse_port("99999999999"), Err(PortError::Overflow));
}

#[test]
fn query_is_decoded_in_order() {
    let pairs = parse_query("a=1&b=x+y&c=%41&flag");
    assert_eq!(
        pairs,
        vec![
            ("a".to_string(), "1".to_string()),
            ("b".to_string(), "x y".to_string()),
            ("c".to_string(), "A".to_string()),
            ("flag".to_string(), String::new()),
        ]
    );
    assert!(parse_query("").is_empty());
}

#[test]
fn query_value_takes_last() {
    let pairs = vec![
        ("k".to_string(), "1".to_string()),
        ("j".to_string(), "2".to_string()),
        ("k".to_string(), "3".to_string()),
    ];
    assert_eq!(query_value(&pairs, "k"), Some("3".to_string()));
    assert_eq!(query_value(&pairs, "j"), Some("2".to_string()));
    assert_eq!(query_value(&pairs, "z"), None);
}

#[test]
fn greeting_name_rules() {
    assert_eq!(greeting_name(&Vec::new()), "World");
    let pairs = vec![("name".to_string(), "Ada".to_string())];
    assert_eq!(greeting_name(&pairs), "Ada");
    let pairs = vec![("name".to_string(), "Ada".to_string()), ("name".to_string(), String::new())];
    assert_eq!(greeting_name(&pairs), "World");
    assert_eq!(greeting_name_for_query(""), "World");
    assert_eq!(greeting_name_for_query("name=Grace%20H"), "Grace H");
    assert_eq!(greeting_name_for_query("nam%65=Ada"), "Ada");
}

#[test]
fn text_helpers() {
    assert!(same_text("abc", "abc"));
    assert!(!same_text("abc", "abd"));
    assert!(!same_text("abc", "ab"));
    assert!(same_text("", ""));
    assert!(starts_with("/static/x", "/static/"));
    assert!(starts_with("abc", ""));
    assert!(!starts_with("/stat", "/static/"));
    assert!(!starts_with("/style.css", "/static/"));
}
