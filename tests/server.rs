use khadim::caller::HandlerError;
use khadim::http_status::HttpStatus;
use khadim::parser::Parser;
use khadim::request::Request;
use khadim::response::{HttpHeader, ResponseWriter};
use khadim::server::{ConfigError, Connection, ReadStep, Server, Step};

type Handler = fn(Request, ResponseWriter) -> Result<String, HandlerError>;

fn init_server(port: u16) -> Server<Handler> {
    match Server::new(&port.to_string(), Some("127.0.0.1".to_string())) {
        Ok(server) => server,
        Err(e) => panic!("Failed to create server: {:?}", e),
    }
}

fn answer(server: &Server<Handler>, request: &Parser) -> String {
    let mut step = server.dispatch(request);
    let mut in_fallback = false;
    loop {
        match step {
            Step::Send(s) => return s,
            Step::Call(h) => {
                let result = h(Request::new(request.clone()), ResponseWriter::new());
                step = server.on_result(request, result, in_fallback);
                in_fallback = true;
            }
        }
    }
}

/// Sends `raw` over a fresh connection and returns the responses written,
/// and whether the connection was still open at the end.
fn exchange(server: &Server<Handler>, raw: &[&[u8]]) -> (Vec<String>, bool) {
    let mut conn = Connection::new(server.address.clone());
    let mut out = Vec::new();
    for chunk in raw {
        match conn.on_read(chunk) {
            ReadStep::NeedMore => {}
            ReadStep::Close => return (out, false),
            ReadStep::Ready(p) => {
                out.push(answer(server, &p));
                if !Connection::keep_alive(&p) {
                    return (out, false);
                }
            }
        }
    }
    (out, true)
}

fn status_of(response: &str) -> String {
    let line = response.lines().next().unwrap();
    line["HTTP/1.1 ".len()..].split(' ').next().unwrap().to_string()
}

fn request(method: &str, target: &str, headers: &[(&str, &str)], body: &str) -> Vec<u8> {
    let mut s = format!("{} {} HTTP/1.1\r\nHost: localhost\r\n", method, target);
    for (k, v) in headers {
        s.push_str(&format!("{}: {}\r\n", k, v));
    }
    s.push_str("\r\n");
    s.push_str(body);
    s.into_bytes()
}

fn send(server: &Server<Handler>, method: &str, target: &str, body: &str) -> String {
    let raw = request(method, target, &[], body);
    let (out, _) = exchange(server, &[&raw]);
    out[0].clone()
}

fn serve_req(_request: Request, mut writer: ResponseWriter) -> Result<String, HandlerError> {
    writer.set_status(HttpStatus::OK);
    Ok(writer.response())
}

fn serve_get(_request: Request, mut writer: ResponseWriter) -> Result<String, HandlerError> {
    writer.set_status(HttpStatus::OK);
    Ok(writer.response())
}

fn serve_post(_request: Request, mut writer: ResponseWriter) -> Result<String, HandlerError> {
    writer.set_status(HttpStatus::Created);
    Ok(writer.response())
}

fn serve_put(request: Request, mut writer: ResponseWriter) -> Result<String, HandlerError> {
    let payload = request.request.body.unwrap_or_default();
    assert_eq!(payload, "{id: 1}");
    writer.set_status(HttpStatus::NoContent);
    Ok(writer.response())
}

fn serve_delete(_request: Request, mut writer: ResponseWriter) -> Result<String, HandlerError> {
    writer.set_status(HttpStatus::NoContent);
    Ok(writer.response())
}

fn trigger_panic(_request: Request, _writer: ResponseWriter) -> Result<String, HandlerError> {
    Err(HandlerError { message: "An error occured".to_string() })
}

fn file_not_exist(_request: Request, mut writer: ResponseWriter) -> Result<String, HandlerError> {
    writer.set_status(HttpStatus::OK);
    Err(HandlerError { message: "./path_that_doesnt_exist.html: not found".to_string() })
}

fn handle_query_param(request: Request, mut writer: ResponseWriter) -> Result<String, HandlerError> {
    writer.set_status(HttpStatus::OK);
    assert_eq!(request.request.get_query_param("foo").unwrap(), "bar");
    assert_eq!(request.request.get_query_param("bar").unwrap(), "baz");
    Ok(writer.response())
}

fn set_user_agent(_request: Request, mut writer: ResponseWriter) -> Result<String, HandlerError> {
    writer.set_status(HttpStatus::OK);
    writer.set_header(HttpHeader::UserAgent("Mustafa".to_string()));
    Ok(writer.response())
}

fn process_payload(request: Request, mut writer: ResponseWriter) -> Result<String, HandlerError> {
    let payload = request.request.body.unwrap_or_default();
    assert_eq!(payload, "Hello");
    writer.set_status_text("201".to_string());
    Ok(writer.response())
}

fn process_url_encoded_form(request: Request, mut writer: ResponseWriter) -> Result<String, HandlerError> {
    let form = request.parse_url_form().unwrap_or_default();
    writer.set_status(HttpStatus::OK);
    if !form.is_empty() {
        assert!(form.contains(&("key1".to_string(), "value1".to_string())));
        assert!(form.contains(&("key2".to_string(), "value2".to_string())));
        return Ok(writer.response());
    }
    Err(HandlerError { message: "An error occured".to_string() })
}

fn process_multipart_form(request: Request, mut writer: ResponseWriter) -> Result<String, HandlerError> {
    let form = request.parse_multipart_form();
    if let Some(form) = form {
        if !form.is_empty() {
            let get = |k: &str| form.iter().find(|(n, _)| n == k).map(|(_, f)| f.generic_value.clone());
            assert_eq!(get("field1"), Some(Some("value1".to_string())));
            assert_eq!(get("field2"), Some(Some("value2".to_string())));
            writer.set_status_text("200".to_string());
            return Ok(writer.response());
        }
    }
    writer.set_status_text("500".to_string());
    Ok(writer.response())
}

fn process_redirect(request: Request, mut writer: ResponseWriter) -> Result<String, HandlerError> {
    let port = request.request.body.unwrap_or_default();
    writer.set_header(HttpHeader::Location(format!("http://localhost:{}/1", port)));
    Ok(writer.response())
}

fn serve_json_payload(_request: Request, mut writer: ResponseWriter) -> Result<String, HandlerError> {
    writer.set_status(HttpStatus::OK);
    writer.set_header(HttpHeader::ContentType("application/json".to_string()));
    writer.set_body("{\"field1\":\"Hello\",\"field2\":42}".to_string());
    Ok(writer.response())
}

#[test]
fn test_process_payload() {
    let mut server = init_server(8081);
    server.add_route("/", "POST", process_payload);
    assert_eq!(status_of(&send(&server, "POST", "/", "Hello")), "201");
}

#[test]
fn test_redirect() {
    let mut server = init_server(8082);
    server.add_route("/", "GET", process_redirect);
    server.add_route("/1", "GET", serve_get);
    let resp = send(&server, "GET", "/", "");
    assert_eq!(status_of(&resp), "200");
    assert!(resp.contains("Location: http://localhost:/1\r\n"));
}

#[test]
fn test_multipart_form_parsing() {
    let mut server = init_server(8083);
    server.add_route("/", "POST", process_multipart_form);
    let body = "--XyZ\r\nContent-Disposition: form-data; name=\"field1\"\r\n\r\nvalue1\r\n\
                --XyZ\r\nContent-Disposition: form-data; name=\"field2\"\r\n\r\nvalue2\r\n--XyZ--\r\n";
    let raw = request("POST", "/", &[("content-type", "multipart/form-data; boundary=XyZ")], body);
    let (out, _) = exchange(&server, &[&raw]);
    assert_eq!(status_of(&out[0]), "200");
}

#[test]
fn test_url_encoded_form_parsing() {
    let mut server = init_server(8084);
    server.add_route("/", "POST", process_url_encoded_form);
    let raw = request(
        "POST",
        "/",
        &[("content-type", "application/x-www-form-urlencoded")],
        "key1=value1&key2=value2",
    );
    let (out, _) = exchange(&server, &[&raw]);
    assert_eq!(status_of(&out[0]), "200");
}

#[test]
fn test_query_param_parse() {
    let mut server = init_server(8085);
    server.add_route("/", "GET", handle_query_param);
    assert_eq!(status_of(&send(&server, "GET", "/?foo=bar&bar=baz", "")), "200");
}

#[test]
fn test_user_agent() {
    let mut server = init_server(8086);
    server.add_route("/", "GET", set_user_agent);
    let resp = send(&server, "GET", "/", "");
    let user_agent = resp
        .lines()
        .find_map(|l| l.strip_prefix("User-Agent: "))
        .unwrap();
    assert_eq!(user_agent, "Mustafa");
}

#[test]
fn test_file_doesnot_exist_error() {
    let mut server = init_server(8087);
    server.add_route("/", "GET", file_not_exist);
    assert_eq!(status_of(&send(&server, "GET", "/", "")), "500");
}

#[test]
fn test_get_fail_wrong_method() {
    let mut server = init_server(8088);
    server.add_route("/", "POST", serve_get);
    assert_eq!(status_of(&send(&server, "GET", "/", "")), "404");
}

#[test]
fn test_pass_get() {
    let mut server = init_server(8089);
    server.add_route("/", "GET", serve_get);
    assert_eq!(status_of(&send(&server, "GET", "/", "")), "200");
}

#[test]
fn test_json_reponse() {
    let mut server = init_server(8090);
    server.add_route("/", "GET", serve_json_payload);
    let resp = send(&server, "GET", "/", "");
    assert_eq!(status_of(&resp), "200");
    let json = resp.split("\r\n\r\n").nth(1).unwrap();
    assert!(json.len() > 0);
    assert!(json.contains("\"field1\":\"Hello\""));
    assert!(json.contains("\"field2\":42"));
    assert!(resp.contains("Content-Type: application/json; charset=utf-8\r\n"));
}

#[test]
fn test_multiple_methods_on_same_route() {
    let mut server = init_server(8091);
    server.add_route("/", "GET", serve_get);
    server.add_route("/", "DELETE", serve_delete);
    server.add_route("/", "PUT", serve_put);
    server.add_route("/", "POST", serve_post);
    assert_eq!(status_of(&send(&server, "GET", "/", "")), "200");
    assert_eq!(status_of(&send(&server, "POST", "/", "")), "201");
    assert_eq!(status_of(&send(&server, "PUT", "/", "{id: 1}")), "204");
    assert_eq!(status_of(&send(&server, "DELETE", "/", "")), "204");
}

#[test]
fn test_pass_post() {
    let mut server = init_server(8092);
    server.add_route("/", "POST", serve_post);
    assert_eq!(status_of(&send(&server, "POST", "/", "")), "201");
}

#[test]
fn test_serve_put() {
    let mut server = init_server(8093);
    server.add_route("/", "PUT", serve_put);
    assert_eq!(status_of(&send(&server, "PUT", "/", "{id: 1}")), "204");
}

#[test]
fn test_connection_persistence() {
    let mut server = init_server(8094);
    server.add_route("/", "GET", serve_get);
    let first = request("GET", "/", &[("Connection", "keep-alive")], "");
    let second = request("GET", "/", &[("Connection", "keep-alive")], "");
    let (out, open) = exchange(&server, &[&first, &second]);
    assert_eq!(out.len(), 2);
    assert_eq!(status_of(&out[0]), "200");
    assert_eq!(status_of(&out[1]), "200");
    assert!(open);
}

#[test]
fn test_pass_delete() {
    let mut server = init_server(8095);
    server.add_route("/", "DELETE", serve_delete);
    assert_eq!(status_of(&send(&server, "DELETE", "/", "")), "204");
}

#[test]
fn test_500() {
    let mut server = init_server(8096);
    server.add_route("/", "GET", trigger_panic);
    assert_eq!(status_of(&send(&server, "GET", "/", "")), "500");
}

#[test]
fn test_200() {
    let mut server = init_server(8097);
    server.add_route("/", "GET", serve_req);
    assert_eq!(status_of(&send(&server, "GET", "/", "")), "200");
}

#[test]
fn test_404() {
    let server = init_server(8098);
    assert_eq!(status_of(&send(&server, "GET", "/", "")), "404");
}

#[test]
fn test_init() {
    let port = 8080;
    let server = init_server(port);
    assert_eq!(server.port, 8080);
    assert_eq!(server.address, "127.0.0.1:8080");
}

#[test]
fn connection_close_ends_the_exchange() {
    let mut server = init_server(8099);
    server.add_route("/", "GET", serve_get);
    let first = request("GET", "/", &[("Connection", "close")], "");
    let second = request("GET", "/", &[], "");
    let (out, open) = exchange(&server, &[&first, &second]);
    assert_eq!(out.len(), 1);
    assert!(!open);
}

#[test]
fn request_split_over_reads_is_assembled() {
    let mut server = init_server(8100);
    server.add_route("/a", "GET", serve_get);
    let (out, open) = exchange(&server, &[b"GET /a HT", b"TP/1.1\r\nHost: x\r\n", b"\r\n"]);
    assert_eq!(out.len(), 1);
    assert_eq!(status_of(&out[0]), "200");
    assert!(open);
}

#[test]
fn empty_read_closes_without_response() {
    let server = init_server(8101);
    let (out, open) = exchange(&server, &[b"GET / HTTP/1.1\r\n", b""]);
    assert!(out.is_empty());
    assert!(!open);
}

#[test]
fn malformed_request_closes_without_response() {
    let server = init_server(8102);
    let (out, open) = exchange(&server, &[b"GET / HTTP/1.1\r\nBad Header\r\n\r\n"]);
    assert!(out.is_empty());
    assert!(!open);
}

#[test]
fn unknown_method_is_not_found() {
    let mut server = init_server(8103);
    server.add_route("/", "GET", serve_get);
    assert_eq!(status_of(&send(&server, "PATCH", "/", "")), "404");
}

#[test]
fn each_route_reaches_its_own_handler() {
    let mut server = init_server(8104);
    server.add_route("/a", "GET", serve_get);
    server.add_route("/b", "GET", serve_post);
    server.add_route("/a", "POST", serve_delete);
    assert_eq!(status_of(&send(&server, "GET", "/a", "")), "200");
    assert_eq!(status_of(&send(&server, "GET", "/b", "")), "201");
    assert_eq!(status_of(&send(&server, "POST", "/a", "")), "204");
    assert_eq!(status_of(&send(&server, "GET", "/c", "")), "404");
}

#[test]
fn custom_fallbacks_are_used() {
    let mut server = init_server(8105);
    server.router.not_found_func = Some(serve_post as Handler);
    server.router.internal_server_error = Some(serve_delete as Handler);
    server.add_route("/fail", "GET", trigger_panic);
    assert_eq!(status_of(&send(&server, "GET", "/none", "")), "201");
    assert_eq!(status_of(&send(&server, "GET", "/fail", "")), "204");
}

#[test]
fn failing_internal_fallback_gives_built_in_500() {
    let mut server = init_server(8106);
    server.router.internal_server_error = Some(trigger_panic as Handler);
    server.add_route("/fail", "GET", trigger_panic);
    assert_eq!(status_of(&send(&server, "GET", "/fail", "")), "500");
}

#[test]
fn duplicate_route_is_refused_by_router() {
    let mut server = init_server(8107);
    assert!(server.router.add_route("/", "GET", serve_get as Handler));
    assert!(!server.router.add_route("/", "GET", serve_post as Handler));
    assert!(server.router.add_route("/", "POST", serve_post as Handler));
    assert!(server.router.fetch_func("/", "GET").is_some());
    assert!(server.router.fetch_func("/", "PUT").is_none());
    assert!(server.router.fetch_func("/", "HEAD").is_none());
}

#[test]
fn server_new_rejects_bad_configuration() {
    let new = |p: &str, a: Option<&str>| Server::<Handler>::new(p, a.map(|s| s.to_string())).err();
    assert_eq!(new("abc", Some("127.0.0.1")), Some(ConfigError::InvalidPort));
    assert_eq!(new("", Some("127.0.0.1")), Some(ConfigError::InvalidPort));
    assert_eq!(new("65536", Some("127.0.0.1")), Some(ConfigError::InvalidPort));
    assert_eq!(new("0", Some("127.0.0.1")), Some(ConfigError::ReservedPort));
    assert_eq!(new("80", Some("127.0.0.1")), Some(ConfigError::ReservedPort));
    assert_eq!(new("1023", Some("127.0.0.1")), Some(ConfigError::ReservedPort));
    assert_eq!(new("8080", None), Some(ConfigError::InvalidAddress));
    assert_eq!(new("x", None), Some(ConfigError::InvalidPort));
    assert_eq!(new("1024", Some("::1")), None);
    assert_eq!(new("+8080", Some("10.0.0.1")).is_none(), true);
    assert_eq!(new("65535", Some("10.0.0.1")), None);
}
