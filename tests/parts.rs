use khadim::http_method::HttpMethod;
use khadim::http_status::HttpStatus;
use khadim::parser::{Parser, ParseError, RawHead};
use khadim::request::{find_boundary, MultiForm, Request};
use khadim::response::{HttpHeader, ResponseWriter};
use khadim::router::Route;
use khadim::server::{check_parsed_result, parse_port, ConfigError, ParseOutcome};
use khadim::text::{chars_of, decimal_string, string_of};

fn parse(raw: &str) -> Parser {
    match check_parsed_result(raw.as_bytes(), "127.0.0.1:8080") {
        ParseOutcome::Complete(p) => p,
        _ => panic!("request did not parse"),
    }
}

#[test]
fn default_response_fields() {
    let mut w = ResponseWriter::new();
    let r = w.response();
    assert_eq!(
        r,
        "HTTP/1.1 200 OK\r\nContent-Type: text/plain; charset=utf-8\r\nContent-Length: 0\r\n\r\n"
    );
    assert_eq!(w.get("Status"), Some("200 OK".to_string()));
    assert_eq!(w.get("Body"), Some(String::new()));
}

#[test]
fn second_body_sets_length() {
    let mut w = ResponseWriter::new();
    w.set_body("X".to_string());
    w.set_body("XY".to_string());
    assert_eq!(w.get("Content-Length"), Some("2".to_string()));
    let r = w.response();
    assert!(r.contains("Content-Length: 2\r\n"));
    assert!(r.ends_with("\r\n\r\nXY"));
}

#[test]
fn body_length_counts_bytes() {
    let mut w = ResponseWriter::new();
    w.set_body("héllo".to_string());
    assert_eq!(w.get("Content-Length"), Some("6".to_string()));
}

#[test]
fn other_headers_keep_insertion_order() {
    let mut w = ResponseWriter::new();
    w.set_status(HttpStatus::Created);
    w.set_header(HttpHeader::Custom("X-B".to_string(), "2".to_string()));
    w.set_header(HttpHeader::Custom("X-A".to_string(), "1".to_string()));
    w.set_body("ok".to_string());
    assert_eq!(
        w.set_header(HttpHeader::Custom("X-B".to_string(), "3".to_string())),
        Some("2".to_string())
    );
    let r = w.response();
    assert_eq!(
        r,
        "HTTP/1.1 201 Created\r\nContent-Type: text/plain; charset=utf-8\r\nContent-Length: 2\r\nX-B: 3\r\nX-A: 1\r\n\r\nok"
    );
}

#[test]
fn html_body_sets_type() {
    let mut w = ResponseWriter::new();
    w.set_html_body("<h1>Hi</h1>".to_string());
    let r = w.response();
    assert!(r.starts_with("HTTP/1.1 200 OK\r\nContent-Type: text/html; charset=utf-8\r\nContent-Length: 11\r\n"));
    assert_eq!(w.set_content_type("text/css".to_string()), Some("text/html".to_string()));
}

#[test]
fn status_texts() {
    assert_eq!(HttpStatus::NotFound.to_string(), "404 Not Found");
    assert_eq!(HttpStatus::ImATeapot.to_string(), "418 I'm a teapot");
    assert_eq!(HttpStatus::InternalServerError.to_string(), "500 Internal Server Error");
    assert_eq!(HttpMethod::DELETE.to_string(), "DELETE");
    assert_eq!(HttpMethod::from_name("PUT"), Some(HttpMethod::PUT));
    assert_eq!(HttpMethod::from_name("get"), None);
}

#[test]
fn query_params_any_order() {
    let a = parse("GET /?foo=bar&bar=baz HTTP/1.1\r\n\r\n");
    let b = parse("GET /?bar=baz&foo=bar HTTP/1.1\r\n\r\n");
    for p in [&a, &b] {
        assert_eq!(p.get_query_param("foo"), Some("bar".to_string()));
        assert_eq!(p.get_query_param("bar"), Some("baz".to_string()));
        assert_eq!(p.path, "/");
    }
}

#[test]
fn repeated_query_key_keeps_last() {
    let p = parse("GET /x/y?k=1&k=2&m=a%20b HTTP/1.1\r\n\r\n");
    assert_eq!(p.path, "/x/y");
    assert_eq!(p.get_query_param("k"), Some("2".to_string()));
    assert_eq!(p.get_query_param("m"), Some("a b".to_string()));
    assert_eq!(p.query_params.as_ref().unwrap().len(), 2);
}

#[test]
fn first_header_wins() {
    let p = parse("GET / HTTP/1.1\r\nX-Tag: one\r\nX-Tag: two\r\nHost: h\r\n\r\n");
    assert_eq!(p.get_header("X-Tag"), Some("one".to_string()));
    assert_eq!(p.header.len(), 2);
    assert_eq!(p.method, "GET");
}

#[test]
fn body_only_for_body_methods() {
    let p = parse("POST / HTTP/1.1\r\n\r\nHello");
    assert_eq!(p.body, Some("Hello".to_string()));
    let g = parse("GET / HTTP/1.1\r\n\r\nHello");
    assert_eq!(g.body, None);
    let e = parse("DELETE / HTTP/1.1\r\n\r\n");
    assert_eq!(e.body, None);
}

#[test]
fn partial_and_invalid_heads() {
    assert!(matches!(
        check_parsed_result(b"GET / HTTP/1.1\r\nHost: x\r\n", "127.0.0.1:8080"),
        ParseOutcome::Incomplete
    ));
    assert!(matches!(
        check_parsed_result(b"GET / HTTP/1.1\r\nBad Header\r\n\r\n", "127.0.0.1:8080"),
        ParseOutcome::Malformed(_)
    ));
    assert!(matches!(
        check_parsed_result(b"GET / HTTP/1.1\r\nX: \xff\r\n\r\n", "127.0.0.1:8080"),
        ParseOutcome::Malformed(ParseError::InvalidHeaderValue)
    ));
}

#[test]
fn parser_new_reports_missing_parts() {
    let head = RawHead { method: None, path: Some("/".to_string()), headers: vec![], head_len: 0 };
    assert_eq!(Parser::new(&head, "127.0.0.1:8080", b"").err(), Some(ParseError::MissingMethod));
    let head = RawHead { method: Some("GET".to_string()), path: None, headers: vec![], head_len: 0 };
    assert_eq!(Parser::new(&head, "127.0.0.1:8080", b"").err(), Some(ParseError::MissingPath));
    let head = RawHead {
        method: Some("PUT".to_string()),
        path: Some("/p?q=1".to_string()),
        headers: vec![("A".to_string(), b"v".to_vec())],
        head_len: 2,
    };
    let p = Parser::new(&head, "127.0.0.1:8080", b"..body").unwrap();
    assert_eq!(p.body, Some("body".to_string()));
    assert_eq!(p.path, "/p");
    assert_eq!(p.get_header("A"), Some("v".to_string()));
}

#[test]
fn url_form_pairs() {
    let mut p = parse("POST / HTTP/1.1\r\n\r\nkey1=value1&key2=value+2&key1=x%21");
    let r = Request::new(p.clone());
    assert_eq!(
        r.parse_url_form(),
        Some(vec![("key1".to_string(), "x!".to_string()), ("key2".to_string(), "value 2".to_string())])
    );
    p.body = None;
    assert_eq!(Request::new(p).parse_url_form(), None);
}

#[test]
fn multipart_fields_and_files() {
    let body = "--b1\r\nContent-Disposition: form-data; name=\"field1\"\r\n\r\nvalue1\r\n\
                --b1\r\nContent-Disposition: form-data; name=\"file\"; filename=\"a.txt\"\r\n\
                Content-Type: application/octet-stream\r\n\r\nraw\r\n--b1--\r\n";
    let raw = format!(
        "POST / HTTP/1.1\r\ncontent-type: multipart/form-data; boundary=b1\r\n\r\n{}",
        body
    );
    let r = Request::new(parse(&raw));
    let form = r.parse_multipart_form().unwrap();
    assert_eq!(form.len(), 2);
    assert_eq!(form[0].0, "field1");
    assert_eq!(form[0].1, MultiForm { generic_value: Some("value1".to_string()), file: None });
    assert_eq!(form[1].0, "file");
    assert_eq!(form[1].1, MultiForm { generic_value: None, file: Some(b"raw".to_vec()) });
    let no_type = Request::new(parse("POST / HTTP/1.1\r\n\r\nx"));
    assert!(no_type.parse_multipart_form().is_none());
}

#[test]
fn boundary_extraction() {
    assert_eq!(find_boundary("multipart/form-data; boundary=abc"), Some("abc".to_string()));
    assert_eq!(find_boundary("multipart/form-data;  boundary=x y ; q=1"), Some("x y".to_string()));
    assert_eq!(find_boundary("boundary=first;boundary=second"), Some("first".to_string()));
    assert_eq!(find_boundary("multipart/form-data"), None);
    assert_eq!(find_boundary(""), None);
}

#[test]
fn port_parsing() {
    assert_eq!(parse_port("8080"), Ok(8080));
    assert_eq!(parse_port("+1024"), Ok(1024));
    assert_eq!(parse_port("65535"), Ok(65535));
    assert_eq!(parse_port("65536"), Err(ConfigError::InvalidPort));
    assert_eq!(parse_port("99999999999"), Err(ConfigError::InvalidPort));
    assert_eq!(parse_port("8o80"), Err(ConfigError::InvalidPort));
    assert_eq!(parse_port("+"), Err(ConfigError::InvalidPort));
    assert_eq!(parse_port("-1"), Err(ConfigError::InvalidPort));
    assert_eq!(parse_port("0"), Err(ConfigError::ReservedPort));
    assert_eq!(parse_port("443"), Err(ConfigError::ReservedPort));
}

#[test]
fn text_helpers() {
    assert_eq!(decimal_string(0), "0");
    assert_eq!(decimal_string(1234567), "1234567");
    assert_eq!(chars_of("aé"), vec!['a', 'é']);
    assert_eq!(string_of(&['x', 'ÿ']), "xÿ");
}

#[test]
fn route_equality_by_name() {
    let a = Route::new("/a".to_string(), HttpMethod::GET);
    let b = Route::new("/a".to_string(), HttpMethod::GET);
    let c = Route::new("/a".to_string(), HttpMethod::POST);
    assert!(a == b);
    assert!(a != c);
}

#[test]
fn header_as_str_pairs() {
    assert_eq!(
        HttpHeader::Location("/x".to_string()).as_str(),
        ("Location".to_string(), "/x".to_string())
    );
    assert_eq!(
        HttpHeader::ContentType("a/b".to_string()).as_str(),
        ("Content-Type".to_string(), "a/b".to_string())
    );
}

#[test]
fn path_is_percent_decoded() {
    let p = parse("GET /a%20b/%C3%A9?x=1 HTTP/1.1\r\n\r\n");
    assert_eq!(p.path, "/a b/é");
    assert!(matches!(
        check_parsed_result(b"GET /%FF HTTP/1.1\r\n\r\n", "127.0.0.1:8080"),
        ParseOutcome::Malformed(ParseError::InvalidTarget)
    ));
    assert_eq!(khadim::parser::percent_decode(b"%41%4a%zz%4"), b"AJ%zz%4".to_vec());
}
