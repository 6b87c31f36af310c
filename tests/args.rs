use minicurl::args::{parse_args, ArgError, RequestConfig};

fn toks(list: &[&str]) -> Vec<String> {
    list.iter().map(|s| s.to_string()).collect()
}

fn ok(list: &[&str]) -> RequestConfig {
    match parse_args(&toks(list)) {
        Ok(c) => c,
        Err(e) => panic!("unexpected error {:?}", e),
    }
}

#[test]
fn defaults_for_bare_url() {
    let c = ok(&["http://example.com"]);
    assert_eq!(c.url.as_deref(), Some("http://example.com"));
    assert_eq!(c.method, "GET");
    assert_eq!(c.form_data, "");
    assert!(c.json_body.is_none());
    assert!(c.headers.is_empty());
    assert!(!c.head_only && !c.follow_redirects && !c.silent);
    assert!(c.out_file.is_none());
}

#[test]
fn second_positional_token_is_ignored() {
    let c = ok(&["http://a.example", "http://b.example"]);
    assert_eq!(c.url.as_deref(), Some("http://a.example"));
}

#[test]
fn method_is_upper_cased() {
    let c = ok(&["http://x.example", "-X", "post"]);
    assert_eq!(c.method, "POST");
}

#[test]
fn json_forces_post() {
    let c = ok(&["http://x.example", "--json", "{\"b\":2,\"a\":1}"]);
    assert_eq!(c.method, "POST");
    assert_eq!(c.json_body.as_deref(), Some("{\"b\":2,\"a\":1}"));
}

#[test]
fn later_method_overrides_json() {
    let c = ok(&["http://x.example", "--json", "{}", "-X", "get"]);
    assert_eq!(c.method, "GET");
    assert_eq!(c.json_body.as_deref(), Some("{}"));
}

#[test]
fn head_flag_sets_head_only() {
    let c = ok(&["-I", "http://x.example"]);
    assert!(c.head_only);
    assert_eq!(c.method, "HEAD");
    let c = ok(&["http://x.example", "--head"]);
    assert!(c.head_only);
}

#[test]
fn other_flags_are_recorded() {
    let c = ok(&["http://x.example", "-L", "-s", "-o", "out.bin", "-d", "a=1"]);
    assert!(c.follow_redirects);
    assert!(c.silent);
    assert_eq!(c.out_file.as_deref(), Some("out.bin"));
    assert_eq!(c.form_data, "a=1");
}

#[test]
fn trailing_flag_without_value_is_skipped() {
    let c = ok(&["http://x.example", "-X"]);
    assert_eq!(c.method, "GET");
    let c = ok(&["http://x.example", "-o"]);
    assert!(c.out_file.is_none());
}

#[test]
fn repeated_headers_are_all_kept() {
    let c = ok(&["http://x.example", "-H", "X: 1", "-H", "X: 2"]);
    assert_eq!(
        c.headers,
        vec![("x".to_string(), "1".to_string()), ("x".to_string(), "2".to_string())]
    );
}

#[test]
fn header_split_at_first_colon_and_trimmed() {
    let c = ok(&["http://x.example", "-H", "  Accept :  a:b  "]);
    assert_eq!(c.headers, vec![("accept".to_string(), "a:b".to_string())]);
}

#[test]
fn header_without_colon_fails() {
    let r = parse_args(&toks(&["http://x.example", "-H", "NoColon"]));
    assert!(matches!(r, Err(ArgError::MissingColon)));
}

#[test]
fn invalid_header_name_fails() {
    let r = parse_args(&toks(&["http://x.example", "-H", "Bad Name: v"]));
    assert!(matches!(r, Err(ArgError::InvalidHeaderName)));
}

#[test]
fn invalid_header_value_fails() {
    let r = parse_args(&toks(&["http://x.example", "-H", "X: a\u{7f}b"]));
    assert!(matches!(r, Err(ArgError::InvalidHeaderValue)));
}

#[test]
fn unknown_flag_is_reported() {
    let r = parse_args(&toks(&["http://x.example", "-z"]));
    match r {
        Err(ArgError::UnknownOption(t)) => assert_eq!(t, "-z"),
        _ => panic!("expected an unknown option"),
    }
}

#[test]
fn missing_url_is_usage() {
    assert!(matches!(parse_args(&toks(&[])), Err(ArgError::Usage)));
    assert!(matches!(parse_args(&toks(&["-L"])), Err(ArgError::Usage)));
}

#[test]
fn arg_error_messages() {
    assert_eq!(ArgError::UnknownOption("-q".to_string()).message(), "Unknown option: -q");
    assert_eq!(ArgError::MissingColon.message(), "Error: -H expects 'Name: Value'");
    assert!(ArgError::Usage.message().starts_with("Usage: minicurl <URL>"));
}
