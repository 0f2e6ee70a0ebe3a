use http_server::request::{HttpRequest, ParseError};
use http_server::response::HttpResponse;
use http_server::router::{
    bad_request_response, body_to_write, file_read_response, file_write_response, handle_request,
    route, Action,
};
use http_server::tokens::{StatusCode, SupportedEncoding, SupprotedHeader};

fn response_of(action: Action) -> HttpResponse {
    match action {
        Action::Respond(response) => response,
        Action::ReadFile { path, .. } => panic!("asked to read {}", path),
        Action::WriteFile { path, .. } => panic!("asked to write {}", path),
    }
}

fn answer(message: &str) -> HttpResponse {
    let request = HttpRequest::new(message).unwrap();
    response_of(route(&request, "/tmp/"))
}

#[test]
fn root_greets() {
    let response = answer("GET / HTTP/1.1\r\n\r\n");
    assert_eq!(response.status_code, StatusCode::OK);
    assert_eq!(response.body, b"Hello, World!");
    assert!(response.headers.is_empty());
    assert_eq!(response.encoding_type, None);
}

#[test]
fn echo_sends_the_rest_of_the_path() {
    assert_eq!(answer("GET /echo/abc HTTP/1.1\r\n\r\n").body, b"abc");
    assert_eq!(answer("GET /echo/ HTTP/1.1\r\n\r\n").body, b"");
    assert_eq!(answer("GET /echo/a/b%20c?d=é HTTP/1.1\r\n\r\n").body, "a/b%20c?d=é".as_bytes());
    assert_eq!(answer("GET /echo//echo/ HTTP/1.1\r\n\r\n").body, b"/echo/");
    assert_eq!(answer("GET /echo/abc HTTP/1.1\r\n\r\n").status_code, StatusCode::OK);
}

#[test]
fn echo_is_coded_only_on_request() {
    let plain = answer("GET /echo/abc HTTP/1.1\r\nUser-Agent: gzip\r\n\r\n");
    assert_eq!(plain.encoding_type, None);
    let deflate = answer("GET /echo/abc HTTP/1.1\r\nAccept-Encoding: deflate\r\n\r\n");
    assert_eq!(deflate.encoding_type, None);
    let gzip = answer("GET /echo/abc HTTP/1.1\r\nAccept-Encoding: br, gzip\r\n\r\n");
    assert_eq!(gzip.encoding_type, Some(SupportedEncoding::Gzip));
    assert_eq!(gzip.body, b"abc");
    assert_eq!(gzip.status_code, StatusCode::OK);
}

#[test]
fn user_agent_is_reported_trimmed() {
    let response = answer("GET /user-agent HTTP/1.1\r\nUser-Agent:   foobar/1.2.3 \t\r\n\r\n");
    assert_eq!(response.status_code, StatusCode::OK);
    assert_eq!(response.body, b"foobar/1.2.3");
}

#[test]
fn user_agent_may_be_any_text() {
    let response = answer("GET /user-agent HTTP/1.1\r\nUser-Agent: Bad Request\r\n\r\n");
    assert_eq!(response.status_code, StatusCode::OK);
    assert_eq!(response.body, b"Bad Request");
    let response = answer("GET /user-agent HTTP/1.1\r\nUser-Agent:\r\n\r\n");
    assert_eq!(response.status_code, StatusCode::OK);
    assert_eq!(response.body, b"");
}

#[test]
fn missing_user_agent_is_a_bad_request() {
    let response = answer("GET /user-agent HTTP/1.1\r\nuser-agent: lower\r\n\r\n");
    assert_eq!(response.status_code, StatusCode::BadRequest);
    assert_eq!(response.body, b"Bad Request");
}

#[test]
fn get_under_files_reads() {
    let request = HttpRequest::new("GET /files/a/b.txt HTTP/1.1\r\nAccept-Encoding: gzip\r\n\r\n")
        .unwrap();
    match route(&request, "/data/") {
        Action::ReadFile { path, encoding } => {
            assert_eq!(path, "/data/a/b.txt");
            assert_eq!(encoding, Some(SupportedEncoding::Gzip));
        }
        _ => panic!("a GET under /files/ reads a file"),
    }
}

#[test]
fn file_paths_are_not_cleaned() {
    let request = HttpRequest::new("GET /files/../etc/passwd HTTP/1.1\r\n\r\n").unwrap();
    match route(&request, "/data") {
        Action::ReadFile { path, encoding } => {
            assert_eq!(path, "/data../etc/passwd");
            assert_eq!(encoding, None);
        }
        _ => panic!("a GET under /files/ reads a file"),
    }
}

#[test]
fn post_under_files_writes() {
    let request =
        HttpRequest::new("POST /files/new.txt HTTP/1.1\r\nContent-Length: 9\r\n\r\ntest file")
            .unwrap();
    match route(&request, "/tmp/") {
        Action::WriteFile { path, contents, encoding } => {
            assert_eq!(path, "/tmp/new.txt");
            assert_eq!(contents, b"test file");
            assert_eq!(encoding, None);
        }
        _ => panic!("a POST under /files/ writes a file"),
    }
}

#[test]
fn written_body_is_cut_to_the_declared_length() {
    let written = |message: &str| body_to_write(&HttpRequest::new(message).unwrap());
    assert_eq!(written("POST /files/f HTTP/1.1\r\nContent-Length: 4\r\n\r\ntest file"), b"test");
    assert_eq!(written("POST /files/f HTTP/1.1\r\nContent-Length: 0\r\n\r\ntest file"), b"");
    assert_eq!(written("POST /files/f HTTP/1.1\r\nContent-Length:9\r\n\r\ntest file"), b"test file");
    assert_eq!(
        written("POST /files/f HTTP/1.1\r\nContent-Length: 100\r\n\r\ntest file"),
        b"test file"
    );
    assert_eq!(written("POST /files/f HTTP/1.1\r\nContent-Length: 3\r\n\r\néa"), "éa".as_bytes());
    assert_eq!(written("POST /files/f HTTP/1.1\r\nContent-Length: 1\r\n\r\néa"), &[0xc3u8][..]);
    let zeros = "POST /files/f HTTP/1.1\r\nContent-Length: 2\r\n\r\nab\0\0\0\0";
    assert_eq!(written(zeros), b"ab");
}

#[test]
fn written_body_is_whole_without_a_declared_length() {
    let written = |message: &str| body_to_write(&HttpRequest::new(message).unwrap());
    assert_eq!(written("POST /files/f HTTP/1.1\r\n\r\ntest file"), b"test file");
    assert_eq!(written("POST /files/f HTTP/1.1\r\nContent-Length: x\r\n\r\ntest file"), b"test file");
    assert_eq!(written("POST /files/f HTTP/1.1\r\nContent-Length: -1\r\n\r\ntest file"), b"test file");
    assert_eq!(written("POST /files/f HTTP/1.1\r\nContent-Length:\r\n\r\ntest file"), b"test file");
}

#[test]
fn other_requests_are_not_found() {
    for message in [
        "GET /unknown HTTP/1.1\r\n\r\n",
        "GET /echo HTTP/1.1\r\n\r\n",
        "GET /user-agent/ HTTP/1.1\r\nUser-Agent: x\r\n\r\n",
        "GET /files HTTP/1.1\r\n\r\n",
        "POST / HTTP/1.1\r\n\r\n",
        "POST /echo/abc HTTP/1.1\r\n\r\n",
        "PUT /files/a HTTP/1.1\r\n\r\n",
        "HEAD / HTTP/1.1\r\n\r\n",
    ] {
        let response = answer(message);
        assert_eq!(response.status_code, StatusCode::NotFound, "{:?}", message);
        assert_eq!(response.body, b"Not Found");
    }
}

#[test]
fn file_read_response_sends_the_bytes() {
    let response = file_read_response(Some(vec![0, 159, 146, 150]), Some(SupportedEncoding::Gzip));
    assert_eq!(response.status_code, StatusCode::OK);
    assert_eq!(response.body, vec![0, 159, 146, 150]);
    assert_eq!(response.encoding_type, Some(SupportedEncoding::Gzip));
    assert_eq!(response.headers.len(), 1);
    assert_eq!(response.headers[0].key, SupprotedHeader::ContentType);
    assert_eq!(response.headers[0].value.as_str(), "application/octet-stream");
}

#[test]
fn file_read_response_without_a_file_is_not_found() {
    let response = file_read_response(None, None);
    assert_eq!(response.status_code, StatusCode::NotFound);
    assert_eq!(response.body, b"Not Found");
    assert!(response.headers.is_empty());
}

#[test]
fn file_write_response_reports_the_outcome() {
    let response = file_write_response(true, None);
    assert_eq!(response.status_code, StatusCode::Created);
    assert_eq!(response.body, b"Created");
    let response = file_write_response(false, Some(SupportedEncoding::Gzip));
    assert_eq!(response.status_code, StatusCode::InternalServerError);
    assert_eq!(response.body, b"Internal Server Error");
    assert_eq!(response.encoding_type, Some(SupportedEncoding::Gzip));
}

#[test]
fn bad_request_response_carries_the_reason() {
    let response = bad_request_response(ParseError::MalformedHeaderLine);
    assert_eq!(response.status_code, StatusCode::BadRequest);
    assert_eq!(response.body, b"Invalid header line");
    assert_eq!(response.encoding_type, None);
    assert!(response.headers.is_empty());
}

#[test]
fn handle_request_refuses_what_is_no_request() {
    let cases = [
        ("", "Missing line break"),
        ("GET / HTTP/1.1", "Missing line break"),
        ("GET /\r\nAccept-Encoding: gzip\r\n\r\n", "Invalid status line"),
        ("BREW / HTTP/1.1\r\n\r\n", "Matching variant not found"),
        ("GET / HTTP/9\r\n\r\n", "Matching variant not found"),
        ("GET / HTTP/1.1\r\nbroken\r\n\r\n", "Invalid header line"),
    ];
    for (message, reason) in cases {
        let response = response_of(handle_request(message, "/tmp/"));
        assert_eq!(response.status_code, StatusCode::BadRequest, "{:?}", message);
        assert_eq!(response.body, reason.as_bytes());
        assert_eq!(response.encoding_type, None);
    }
}

#[test]
fn handle_request_routes_a_request() {
    let response = response_of(handle_request("GET /echo/hi HTTP/1.1\r\n\r\n", "/tmp/"));
    assert_eq!(response.status_code, StatusCode::OK);
    assert_eq!(response.body, b"hi");
}
