use httpie::ValidationError;
use httpie::parse::KeyValue;
use httpie::request::{collapse_pairs, plan_request, Method, Request};

fn pairs(raw: &[(&str, &str)]) -> Vec<KeyValue> {
    raw.iter()
        .map(|(k, v)| KeyValue { key: (*k).into(), value: (*v).into() })
        .collect()
}

#[test]
fn get_plan_carries_marker_headers() {
    let req = Request::get("https://httpbin.org/get").unwrap();
    let plan = plan_request(&req);
    assert_eq!(plan.method, Method::Get);
    assert_eq!(plan.url, "https://httpbin.org/get");
    assert_eq!(plan.headers.len(), 2);
    assert_eq!(plan.headers[0], ("x-power-by".into(), "Rust".into()));
    assert_eq!(plan.headers[1], ("user-agent".into(), "Rust Httpie".into()));
    assert!(plan.body.is_none());
}

#[test]
fn delete_plan_has_no_body() {
    let req = Request::delete("http://abc.xyz").unwrap();
    let plan = plan_request(&req);
    assert_eq!(plan.method, Method::Delete);
    assert!(plan.body.is_none());
    assert_eq!(plan.headers.len(), 2);
}

#[test]
fn post_plan_encodes_form_body() {
    let body = vec!["a=1".to_string(), "b=2".to_string()];
    let req = Request::post("https://httpbin.org/post", &body).unwrap();
    let plan = plan_request(&req);
    assert_eq!(plan.method, Method::Post);
    assert_eq!(plan.headers.len(), 3);
    assert_eq!(
        plan.headers[2],
        ("content-type".into(), "application/x-www-form-urlencoded".into())
    );
    assert_eq!(plan.body.as_deref(), Some("a=1&b=2"));
}

#[test]
fn post_plan_percent_encodes() {
    let body = vec!["a b=c&d".to_string()];
    let req = Request::post("http://abc.xyz", &body).unwrap();
    let plan = plan_request(&req);
    assert_eq!(plan.body.as_deref(), Some("a+b=c%26d"));
}

#[test]
fn duplicate_keys_last_write_wins() {
    let body = vec!["a=1".to_string(), "a=2".to_string()];
    let req = Request::post("https://httpbin.org/post", &body).unwrap();
    let plan = plan_request(&req);
    assert_eq!(plan.body.as_deref(), Some("a=2"));
}

#[test]
fn collapse_keeps_one_entry_per_key() {
    let collapsed = collapse_pairs(&pairs(&[("a", "1"), ("b", "x"), ("a", "2")]));
    assert_eq!(collapsed.len(), 2);
    let a: Vec<&KeyValue> = collapsed.iter().filter(|kv| kv.key == "a").collect();
    assert_eq!(a.len(), 1);
    assert_eq!(a[0].value, "2");
    let b: Vec<&KeyValue> = collapsed.iter().filter(|kv| kv.key == "b").collect();
    assert_eq!(b.len(), 1);
    assert_eq!(b[0].value, "x");
}

#[test]
fn put_mirrors_post() {
    let body = vec!["k=v".to_string()];
    let req = Request::put("http://abc.xyz", &body).unwrap();
    let plan = plan_request(&req);
    assert_eq!(plan.method, Method::Put);
    assert_eq!(plan.body.as_deref(), Some("k=v"));
}

#[test]
fn bad_url_rejected_before_body() {
    let body = vec!["nokv".to_string()];
    match Request::post("abc", &body) {
        Err(ValidationError::MalformedUrl(orig)) => assert_eq!(orig, "abc"),
        other => panic!("expected MalformedUrl, got {:?}", other),
    }
}

#[test]
fn first_bad_pair_reported() {
    let body = vec!["a=1".to_string(), "nokv".to_string(), "also-bad".to_string()];
    match Request::post("http://abc.xyz", &body) {
        Err(ValidationError::MalformedKeyValue(orig)) => assert_eq!(orig, "nokv"),
        other => panic!("expected MalformedKeyValue, got {:?}", other),
    }
}

#[test]
fn empty_body_allowed() {
    let body: Vec<String> = vec![];
    let req = Request::post("http://abc.xyz", &body).unwrap();
    let plan = plan_request(&req);
    assert_eq!(plan.body.as_deref(), Some(""));
}
