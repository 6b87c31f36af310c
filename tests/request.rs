use minicurl::args::parse_args;
use minicurl::request::{build_request, connect_failure_message, narration, BuildError, Method};
use minicurl::target::UrlError;

fn toks(list: &[&str]) -> Vec<String> {
    list.iter().map(|s| s.to_string()).collect()
}

fn build(list: &[&str]) -> Result<minicurl::request::OutboundRequest, BuildError> {
    let c = parse_args(&toks(list)).ok().expect("configuration");
    build_request(&c)
}

fn pair(a: &str, b: &str) -> (String, String) {
    (a.to_string(), b.to_string())
}

#[test]
fn json_body_is_canonical_and_posted() {
    let q = build(&["http://x.example", "--json", "{\"b\": 2, \"a\": 1}"]).ok().unwrap();
    assert_eq!(q.method, Method::Post);
    assert_eq!(q.body.as_deref(), Some("{\"a\":1,\"b\":2}"));
    let v: serde_json::Value = serde_json::from_str(q.body.as_deref().unwrap()).unwrap();
    assert_eq!(v["a"], 1);
    assert_eq!(v["b"], 2);
    assert_eq!(q.headers, vec![pair("content-type", "application/json")]);
    assert_eq!(q.url, "http://x.example");
}

#[test]
fn json_wins_over_form_data() {
    let q = build(&["http://x.example", "-d", "a=1", "--json", "[1, 2]"]).ok().unwrap();
    assert_eq!(q.body.as_deref(), Some("[1,2]"));
    assert_eq!(q.headers, vec![pair("content-type", "application/json")]);
}

#[test]
fn form_data_posted_with_default_type() {
    let q = build(&["http://x.example", "-X", "POST", "-d", "a=1&b=2"]).ok().unwrap();
    assert_eq!(q.method, Method::Post);
    assert_eq!(q.body.as_deref(), Some("a=1&b=2"));
    assert_eq!(q.headers, vec![pair("content-type", "application/x-www-form-urlencoded")]);
}

#[test]
fn form_data_not_sent_with_get() {
    let q = build(&["http://x.example", "-d", "a=1"]).ok().unwrap();
    assert_eq!(q.method, Method::Get);
    assert!(q.body.is_none());
}

#[test]
fn user_content_type_wins() {
    let q = build(&["http://x.example", "-H", "Content-Type: text/plain", "--json", "{}"]).ok().unwrap();
    assert_eq!(q.headers, vec![pair("content-type", "text/plain")]);
}

#[test]
fn redirect_policy() {
    assert_eq!(build(&["http://x.example", "-L"]).ok().unwrap().max_redirects, 10);
    assert_eq!(build(&["http://x.example"]).ok().unwrap().max_redirects, 0);
}

#[test]
fn unsupported_method_refused() {
    match build(&["http://x.example", "-X", "put"]) {
        Err(e) => {
            assert!(matches!(e, BuildError::UnsupportedMethod(ref m) if m == "PUT"));
            assert_eq!(e.message(), "Unsupported method: PUT");
        }
        Ok(_) => panic!("expected a refusal"),
    }
}

#[test]
fn malformed_json_refused() {
    match build(&["http://x.example", "--json", "{oops"]) {
        Err(e) => {
            assert!(matches!(e, BuildError::InvalidJson(_)));
            assert!(e.message().starts_with("Invalid JSON: "));
        }
        Ok(_) => panic!("expected a refusal"),
    }
}

#[test]
fn bad_url_checked_before_method() {
    match build(&["ftp://x.example", "-X", "PUT"]) {
        Err(BuildError::Url(UrlError::InvalidProtocol)) => {}
        _ => panic!("expected a URL error"),
    }
}

#[test]
fn narration_lines() {
    let c = parse_args(&toks(&["http://x.example", "-d", "a=1"])).ok().unwrap();
    assert_eq!(
        narration(&c),
        vec!["Requesting URL: http://x.example".to_string(), "Method: GET".to_string(), "Data: a=1".to_string()]
    );
    let c = parse_args(&toks(&["http://x.example", "--json", "{}"])).ok().unwrap();
    assert_eq!(narration(&c)[2], "JSON: {}");
    let c = parse_args(&toks(&["http://x.example", "-s"])).ok().unwrap();
    assert!(narration(&c).is_empty());
}

#[test]
fn connect_failure_text() {
    assert!(connect_failure_message().starts_with("Error: Unable to connect to the server."));
}
