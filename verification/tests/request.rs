use http_server::header::Header;
use http_server::request::{
    extract_request_components, extract_request_headers, HttpRequest, ParseError,
};
use http_server::tokens::{HttpMethod, HttpVersion, SupprotedHeader};

fn header_list(headers: &[Header]) -> Vec<(SupprotedHeader, String)> {
    headers.iter().map(|h| (h.key, h.value.as_str().to_string())).collect()
}

fn error_of(message: &str) -> ParseError {
    match HttpRequest::new(message) {
        Ok(_) => panic!("{:?} was accepted", message),
        Err(error) => error,
    }
}

#[test]
fn components_are_cut_at_the_first_and_the_last_line_break() {
    assert_eq!(
        extract_request_components("GET / HTTP/1.1\r\nA: b\r\nC: d\r\n\r\nbody"),
        Some(("GET / HTTP/1.1", "A: b\r\nC: d\r\n", "body"))
    );
    assert_eq!(extract_request_components("line\r\n\r\n"), Some(("line", "", "")));
    assert_eq!(extract_request_components("line\r\nrest\r\n"), Some(("line", "rest", "")));
    assert_eq!(extract_request_components("\r\n\r\n"), Some(("", "", "")));
}

#[test]
fn body_begins_after_the_last_line_break() {
    assert_eq!(
        extract_request_components("POST / HTTP/1.1\r\nA: b\r\n\r\nfirst\r\nsecond"),
        Some(("POST / HTTP/1.1", "A: b\r\n\r\nfirst", "second"))
    );
}

#[test]
fn components_need_two_line_breaks() {
    assert_eq!(extract_request_components(""), None);
    assert_eq!(extract_request_components("GET / HTTP/1.1"), None);
    assert_eq!(extract_request_components("GET / HTTP/1.1\r\n"), None);
    assert_eq!(extract_request_components("GET / HTTP/1.1\nA: b\n\n"), None);
}

#[test]
fn header_lines_are_cut_at_the_first_colon() {
    assert_eq!(
        extract_request_headers("Host: localhost:4221\r\nUser-Agent: curl\r\n"),
        Some(vec![("Host", " localhost:4221"), ("User-Agent", " curl")])
    );
    assert_eq!(extract_request_headers(""), Some(vec![]));
    assert_eq!(extract_request_headers("\r\n\r\n"), Some(vec![]));
    assert_eq!(extract_request_headers("a:\r\n\r\n:b"), Some(vec![("a", ""), ("", "b")]));
}

#[test]
fn header_line_without_colon_is_refused() {
    assert_eq!(extract_request_headers("Host localhost"), None);
    assert_eq!(extract_request_headers("A: b\r\nbroken\r\nC: d"), None);
    assert_eq!(extract_request_headers(" "), None);
}

#[test]
fn parse_headers_keeps_the_known_names() {
    let headers = Header::parse_headers(vec![
        ("Host", " localhost"),
        ("User-Agent", " curl/8"),
        ("accept-encoding", " gzip"),
        ("Accept-Encoding", " gzip"),
        ("User-Agent", " second"),
    ]);
    assert_eq!(
        header_list(&headers),
        vec![
            (SupprotedHeader::UserAgent, " curl/8".to_string()),
            (SupprotedHeader::AcceptEncoding, " gzip".to_string()),
            (SupprotedHeader::UserAgent, " second".to_string()),
        ]
    );
    assert!(Header::parse_headers(vec![]).is_empty());
}

#[test]
fn request_is_parsed() {
    let message = "POST /files/a.txt HTTP/1.1\r\nHost: x\r\nContent-Length: 5\r\nUser-Agent: me\r\n\r\nhello";
    let request = HttpRequest::new(message).unwrap();
    assert_eq!(request.method, HttpMethod::Post);
    assert_eq!(request.path, "/files/a.txt");
    assert_eq!(request.version, HttpVersion::Http1_1);
    assert_eq!(
        header_list(&request.headers),
        vec![
            (SupprotedHeader::ContentLength, " 5".to_string()),
            (SupprotedHeader::UserAgent, " me".to_string()),
        ]
    );
    assert_eq!(request.body, "hello");
}

#[test]
fn status_line_may_hold_any_white_space() {
    let request = HttpRequest::new("  GET\t/echo/x \u{a0} HTTP/1.0 \r\n\r\n").unwrap();
    assert_eq!(request.method, HttpMethod::Get);
    assert_eq!(request.path, "/echo/x");
    assert_eq!(request.version, HttpVersion::Http1_0);
    assert!(request.headers.is_empty());
    assert_eq!(request.body, "");
}

#[test]
fn get_header_value_gives_the_first_match() {
    let request = HttpRequest::new(
        "GET / HTTP/1.1\r\nUser-Agent: first\r\nAccept-Encoding: gzip\r\nUser-Agent: second\r\n\r\n",
    )
    .unwrap();
    assert_eq!(request.get_header_value(SupprotedHeader::UserAgent), Some(" first"));
    assert_eq!(request.get_header_value(SupprotedHeader::AcceptEncoding), Some(" gzip"));
    assert_eq!(request.get_header_value(SupprotedHeader::ContentLength), None);
}

#[test]
fn message_without_line_breaks_is_refused() {
    assert_eq!(error_of(""), ParseError::MissingLineBreak);
    assert_eq!(error_of("GET / HTTP/1.1"), ParseError::MissingLineBreak);
    assert_eq!(error_of("GET / HTTP/1.1\r\n"), ParseError::MissingLineBreak);
    assert_eq!(error_of("BREW /\r\n"), ParseError::MissingLineBreak);
}

#[test]
fn status_line_needs_three_words() {
    assert_eq!(error_of("\r\n\r\n"), ParseError::InvalidStatusLine);
    assert_eq!(error_of("GET\r\n\r\n"), ParseError::InvalidStatusLine);
    assert_eq!(error_of("GET /\r\n\r\n"), ParseError::InvalidStatusLine);
    assert_eq!(error_of("GET / HTTP/1.1 more\r\n\r\n"), ParseError::InvalidStatusLine);
    assert_eq!(error_of("BREW /\r\nbroken\r\n"), ParseError::InvalidStatusLine);
}

#[test]
fn method_and_version_must_be_known() {
    assert_eq!(error_of("BREW / HTTP/1.1\r\n\r\n"), ParseError::UnknownMethod);
    assert_eq!(error_of("get / HTTP/1.1\r\n\r\n"), ParseError::UnknownMethod);
    assert_eq!(error_of("GET / HTTP/3.0\r\n\r\n"), ParseError::UnknownVersion);
    assert_eq!(error_of("BREW / HTTP/3.0\r\n\r\n"), ParseError::UnknownMethod);
    assert_eq!(error_of("GET / HTTP/3.0\r\nbroken\r\n"), ParseError::UnknownVersion);
}

#[test]
fn header_lines_need_a_colon() {
    assert_eq!(error_of("GET / HTTP/1.1\r\nbroken\r\n\r\n"), ParseError::MalformedHeaderLine);
    assert_eq!(
        error_of("GET / HTTP/1.1\r\nHost: x\r\n\r\nbody\r\n"),
        ParseError::MalformedHeaderLine
    );
}

#[test]
fn parse_errors_give_their_reasons() {
    assert_eq!(ParseError::MissingLineBreak.to_string(), "Missing line break");
    assert_eq!(ParseError::InvalidStatusLine.to_string(), "Invalid status line");
    assert_eq!(ParseError::UnknownMethod.to_string(), "Matching variant not found");
    assert_eq!(ParseError::UnknownVersion.to_string(), "Matching variant not found");
    assert_eq!(ParseError::MalformedHeaderLine.to_string(), "Invalid header line");
}
