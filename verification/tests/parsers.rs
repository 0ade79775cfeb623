use httpie::ValidationError;
use httpie::parse::{parse_key_value, parse_url, KeyValue};

#[test]
fn test_parse_url() {
    assert!(parse_url("abc").is_err());
    assert!(parse_url("http://abc.xyz").is_ok());
    assert!(parse_url("https://httpbin.org/post").is_ok());
}

#[test]
fn test_parse_key_value() {
    assert!(parse_key_value("a").is_err());
    assert_eq!(
        parse_key_value("a=1").unwrap(),
        KeyValue { key: "a".into(), value: "1".into() }
    );
    assert_eq!(
        parse_key_value("b=").unwrap(),
        KeyValue { key: "b".into(), value: "".into() }
    );
}

#[test]
fn url_returned_unchanged() {
    assert_eq!(parse_url("http://abc.xyz").unwrap(), "http://abc.xyz");
    assert_eq!(
        parse_url("https://httpbin.org/post").unwrap(),
        "https://httpbin.org/post"
    );
}

#[test]
fn url_error_carries_original() {
    match parse_url("abc") {
        Err(ValidationError::MalformedUrl(orig)) => assert_eq!(orig, "abc"),
        other => panic!("expected MalformedUrl, got {:?}", other),
    }
}

#[test]
fn key_value_splits_on_first_eq_only() {
    assert_eq!(
        parse_key_value("a=b=c").unwrap(),
        KeyValue { key: "a".into(), value: "b=c".into() }
    );
}

#[test]
fn key_value_without_eq_fails() {
    assert!(parse_key_value("").is_err());
    assert!(parse_key_value("just some words").is_err());
    match parse_key_value("nokv") {
        Err(ValidationError::MalformedKeyValue(orig)) => assert_eq!(orig, "nokv"),
        other => panic!("expected MalformedKeyValue, got {:?}", other),
    }
}

#[test]
fn key_value_keeps_whitespace() {
    assert_eq!(
        parse_key_value(" a = 1 ").unwrap(),
        KeyValue { key: " a ".into(), value: " 1 ".into() }
    );
}

#[test]
fn error_descriptions() {
    assert_eq!(
        ValidationError::MalformedUrl("abc".into()).describe(),
        "invalid URL: abc"
    );
    assert_eq!(
        ValidationError::MalformedKeyValue("nokv".into()).describe(),
        "invalid key-value pair: nokv"
    );
}

#[test]
fn no_method_notice_text() {
    assert_eq!(httpie::no_method_notice(), "No HTTP method specified.");
}
