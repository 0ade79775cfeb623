use httpie::render::{
    body_format_of, content_type_of, render_response, status_line, BodyFormat, RenderError,
    Response, Tone,
};

fn response(headers: &[(&str, &str)], body: &str) -> Response {
    Response {
        version: "HTTP/1.1".into(),
        status: 200,
        reason: "OK".into(),
        headers: headers
            .iter()
            .map(|(n, v)| ((*n).to_string(), (*v).to_string()))
            .collect(),
        body: body.into(),
    }
}

#[test]
fn status_line_format() {
    let mut resp = response(&[], "");
    resp.status = 404;
    resp.reason = "Not Found".into();
    assert_eq!(status_line(&resp), "HTTP/1.1 404 Not Found");
}

#[test]
fn content_type_lookup_ignores_case_and_takes_first() {
    let resp = response(
        &[("server", "x"), ("Content-Type", "text/plain"), ("content-type", "application/json")],
        "",
    );
    assert_eq!(content_type_of(&resp.headers).as_deref(), Some("text/plain"));
    assert_eq!(content_type_of(&response(&[("server", "x")], "").headers), None);
}

#[test]
fn body_format_dispatch() {
    let json = response(&[("content-type", "application/json")], "");
    assert_eq!(body_format_of(&json.headers).unwrap(), BodyFormat::Json);
    let plain = response(&[("content-type", "text/plain")], "");
    assert_eq!(body_format_of(&plain.headers).unwrap(), BodyFormat::Markup);
    let xml = response(&[("content-type", "application/xml")], "");
    assert_eq!(body_format_of(&xml.headers).unwrap(), BodyFormat::Raw);
    let none = response(&[("server", "x")], "");
    assert_eq!(body_format_of(&none.headers).unwrap(), BodyFormat::Raw);
}

#[test]
fn unparseable_content_type_is_fatal() {
    let resp = response(&[("content-type", "not a mime")], "{}");
    match render_response(&resp) {
        Err(RenderError::BadContentType(v)) => assert_eq!(v, "not a mime"),
        other => panic!("expected BadContentType, got {:?}", other),
    }
}

#[test]
fn no_content_type_prints_body_verbatim() {
    let resp = response(&[("server", "nginx")], "hello\nworld");
    let spans = render_response(&resp).unwrap();
    let texts: Vec<&str> = spans.iter().map(|sp| sp.text.as_str()).collect();
    assert_eq!(
        texts,
        vec!["HTTP/1.1 200 OK", "\n\n", "server", ": nginx\n", "\n\n", "hello\nworld\n"]
    );
    let tones: Vec<Tone> = spans.iter().map(|sp| sp.tone).collect();
    assert_eq!(
        tones,
        vec![Tone::Status, Tone::Plain, Tone::HeaderName, Tone::Plain, Tone::Plain, Tone::Plain]
    );
    // the raw path emits no terminal escape codes
    assert!(spans.iter().all(|sp| !sp.text.contains('\u{1b}')));
}

#[test]
fn json_body_is_highlighted() {
    let raw = response(&[], "{\"a\":1}");
    let raw_spans = render_response(&raw).unwrap();
    let json = response(&[("content-type", "application/json")], "{\"a\":1}");
    let spans = render_response(&json).unwrap();
    let last = &spans[spans.len() - 1];
    // highlighted output is terminal-escaped, unlike the raw path
    assert!(last.text.contains('\u{1b}'));
    assert_ne!(last.text, raw_spans[raw_spans.len() - 1].text);
}

#[test]
fn plain_text_body_is_highlighted_as_markup() {
    let resp = response(&[("content-type", "text/plain")], "some text");
    let spans = render_response(&resp).unwrap();
    let last = &spans[spans.len() - 1];
    assert!(last.text.contains('\u{1b}'));
}

#[test]
fn headers_render_in_transport_order() {
    let resp = response(&[("b", "2"), ("a", "1")], "");
    let spans = render_response(&resp).unwrap();
    let names: Vec<&str> = spans
        .iter()
        .filter(|sp| sp.tone == Tone::HeaderName)
        .map(|sp| sp.text.as_str())
        .collect();
    assert_eq!(names, vec!["b", "a"]);
}
