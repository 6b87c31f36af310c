use minicurl::args::{parse_args, RequestConfig};
use minicurl::outside::JsonDoc;
use minicurl::render::{render_body, render_members, render_response, sort_members_by_key, ParsedResponse, Rendering};
use minicurl::text::{decimal, text_less};

fn config(list: &[&str]) -> RequestConfig {
    let v: Vec<String> = list.iter().map(|s| s.to_string()).collect();
    parse_args(&v).ok().expect("configuration")
}

fn response(status: u16, body: &[u8]) -> ParsedResponse {
    ParsedResponse {
        status,
        headers: vec![
            ("content-type".to_string(), b"text/plain".to_vec()),
            ("x-raw".to_string(), vec![0xff, 0x01]),
        ],
        body: body.to_vec(),
    }
}

fn lines(r: Rendering) -> Vec<String> {
    match r {
        Rendering::Lines(l) => l,
        Rendering::SaveBody { .. } => panic!("expected console lines"),
    }
}

#[test]
fn json_object_keys_sorted() {
    let c = config(&["http://x.example"]);
    let out = lines(render_response(&c, &response(200, b"{\"z\":1,\"a\":2}")));
    assert_eq!(
        out,
        vec![
            "Response body (JSON with sorted keys):",
            "{",
            "  \"a\": 2,",
            "  \"z\": 1",
            "}",
        ]
    );
}

#[test]
fn nested_values_rendered_compactly() {
    let c = config(&["http://x.example", "-s"]);
    let out = lines(render_response(&c, &response(201, b"{\"b\": {\"y\": 1, \"x\": [1, 2]}, \"a\": \"s\"}")));
    assert_eq!(out, vec!["{", "  \"a\": \"s\",", "  \"b\": {\"x\":[1,2],\"y\":1}", "}"]);
}

#[test]
fn json_array_pretty_printed() {
    let c = config(&["http://x.example", "-s"]);
    let out = lines(render_response(&c, &response(200, b"[1,2]")));
    assert_eq!(out, vec!["[\n  1,\n  2\n]"]);
}

#[test]
fn empty_object() {
    let c = config(&["http://x.example", "-s"]);
    let out = lines(render_response(&c, &response(200, b"{}")));
    assert_eq!(out, vec!["{", "}"]);
}

#[test]
fn non_json_body_verbatim() {
    let c = config(&["http://x.example"]);
    let out = lines(render_response(&c, &response(200, b"hello <b>")));
    assert_eq!(out, vec!["Response body:", "hello <b>"]);
    let c = config(&["http://x.example", "-s"]);
    let out = lines(render_response(&c, &response(200, b"hello <b>")));
    assert_eq!(out, vec!["hello <b>"]);
}

#[test]
fn head_only_ignores_status() {
    let c = config(&["http://x.example", "-I"]);
    let out = lines(render_response(&c, &response(404, b"not found")));
    assert_eq!(out, vec!["content-type: text/plain", "x-raw: <binary>"]);
}

#[test]
fn failure_status_line() {
    let c = config(&["http://x.example"]);
    let out = lines(render_response(&c, &response(404, b"{}")));
    assert_eq!(out, vec!["Error: Request failed with status code: 404."]);
    let out = lines(render_response(&c, &response(199, b"")));
    assert_eq!(out, vec!["Error: Request failed with status code: 199."]);
    let out = lines(render_response(&c, &response(300, b"")));
    assert_eq!(out, vec!["Error: Request failed with status code: 300."]);
}

#[test]
fn output_file_gets_exact_bytes() {
    let body: Vec<u8> = vec![0, 159, 146, 150, 10, 255];
    let c = config(&["http://x.example", "-o", "out.bin"]);
    match render_response(&c, &response(200, &body)) {
        Rendering::SaveBody { path, bytes, lines } => {
            assert_eq!(path, "out.bin");
            assert_eq!(bytes, body);
            assert_eq!(lines, vec!["Saved body to out.bin"]);
        }
        Rendering::Lines(_) => panic!("expected a file"),
    }
    let c = config(&["http://x.example", "-o", "out.bin", "-s"]);
    match render_response(&c, &response(299, &body)) {
        Rendering::SaveBody { lines, .. } => assert!(lines.is_empty()),
        Rendering::Lines(_) => panic!("expected a file"),
    }
}

#[test]
fn output_file_not_written_on_failure() {
    let c = config(&["http://x.example", "-o", "out.bin"]);
    let out = lines(render_response(&c, &response(500, b"x")));
    assert_eq!(out, vec!["Error: Request failed with status code: 500."]);
}

#[test]
fn rendering_twice_is_identical() {
    let c = config(&["http://x.example"]);
    let r = response(200, b"{\"k\":[true,null],\"b\":1.5}");
    let first = lines(render_response(&c, &r));
    let second = lines(render_response(&c, &r));
    assert_eq!(first, second);
}

#[test]
fn body_rendering_from_shape() {
    let doc = JsonDoc::Object(vec![
        ("m".to_string(), "1".to_string()),
        ("b".to_string(), "2".to_string()),
    ]);
    assert_eq!(render_body("ignored", Some(doc), true), vec!["{", "  \"b\": 2,", "  \"m\": 1", "}"]);
    assert_eq!(render_body("raw", None, true), vec!["raw"]);
    assert_eq!(
        render_body("7", Some(JsonDoc::Other("7".to_string())), false),
        vec!["Response body (JSON with sorted keys):", "7"]
    );
}

#[test]
fn members_sorted_and_comma_separated() {
    let ms = vec![
        ("b".to_string(), "1".to_string()),
        ("B".to_string(), "2".to_string()),
        ("ab".to_string(), "3".to_string()),
        ("a".to_string(), "4".to_string()),
    ];
    let sorted = sort_members_by_key(&ms);
    let keys: Vec<&str> = sorted.iter().map(|m| m.0.as_str()).collect();
    assert_eq!(keys, vec!["B", "a", "ab", "b"]);
    assert_eq!(
        render_members(&sorted),
        vec!["  \"B\": 2,", "  \"a\": 4,", "  \"ab\": 3,", "  \"b\": 1"]
    );
}

#[test]
fn text_helpers() {
    assert_eq!(decimal(0), "0");
    assert_eq!(decimal(404), "404");
    assert_eq!(decimal(65535), "65535");
    assert!(text_less("a", "b"));
    assert!(text_less("a", "ab"));
    assert!(!text_less("b", "a"));
    assert!(!text_less("a", "a"));
    assert!(text_less("Z", "a"));
}
