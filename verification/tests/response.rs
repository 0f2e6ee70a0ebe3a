use flate2::read::{DeflateDecoder, GzDecoder};
use http_server::compress::compress;
use http_server::header::Header;
use http_server::response::HttpResponse;
use http_server::tokens::{StatusCode, SupportedEncoding, SupprotedHeader};
use std::io::Read;
use std::rc::Rc;

fn gunzip(bytes: &[u8]) -> Vec<u8> {
    let mut out = Vec::new();
    GzDecoder::new(bytes).read_to_end(&mut out).unwrap();
    out
}

fn inflate(bytes: &[u8]) -> Vec<u8> {
    let mut out = Vec::new();
    DeflateDecoder::new(bytes).read_to_end(&mut out).unwrap();
    out
}

fn cut(bytes: &[u8]) -> (String, Vec<u8>) {
    let end = bytes.windows(4).position(|w| w == b"\r\n\r\n").unwrap();
    (String::from_utf8(bytes[..end + 4].to_vec()).unwrap(), bytes[end + 4..].to_vec())
}

#[test]
fn header_new_keeps_its_arguments() {
    let header = Header::new(SupprotedHeader::UserAgent, Rc::new("curl".to_string()));
    assert_eq!(header.key, SupprotedHeader::UserAgent);
    assert_eq!(header.value.as_str(), "curl");
    let header = Header::from_text(SupprotedHeader::ContentType, "text/html");
    assert_eq!(header.key, SupprotedHeader::ContentType);
    assert_eq!(header.value.as_str(), "text/html");
}

#[test]
fn new_keeps_its_arguments() {
    let response = HttpResponse::new(
        StatusCode::Created,
        vec![Header::from_text(SupprotedHeader::ContentType, "text/html")],
        "héllo".to_string(),
        Some(SupportedEncoding::Deflate),
    );
    assert_eq!(response.status_code, StatusCode::Created);
    assert_eq!(response.headers.len(), 1);
    assert_eq!(response.headers[0].key, SupprotedHeader::ContentType);
    assert_eq!(response.body, "héllo".as_bytes());
    assert_eq!(response.encoding_type, Some(SupportedEncoding::Deflate));
    let response = HttpResponse::from_bytes(StatusCode::OK, vec![], vec![0, 159, 255], None);
    assert_eq!(response.status_code, StatusCode::OK);
    assert_eq!(response.body, vec![0, 159, 255]);
    assert_eq!(response.encoding_type, None);
}

#[test]
fn content_length_header_counts_bytes() {
    let header = HttpResponse::create_content_length_header(b"");
    assert_eq!(header.key, SupprotedHeader::ContentLength);
    assert_eq!(header.value.as_str(), "0");
    let header = HttpResponse::create_content_length_header("héllo".as_bytes());
    assert_eq!(header.value.as_str(), "6");
    let header = HttpResponse::create_content_length_header(&[7u8; 1024]);
    assert_eq!(header.value.as_str(), "1024");
}

#[test]
fn plain_response_on_the_wire() {
    let response = HttpResponse::new(StatusCode::OK, vec![], "abc".to_string(), None);
    assert_eq!(
        response.body_to_bytes(),
        b"HTTP/1.1 200 OK\r\nContent-Type: text/plain\r\nContent-Length: 3\r\n\r\nabc".to_vec()
    );
}

#[test]
fn empty_body_on_the_wire() {
    let response = HttpResponse::new(StatusCode::NotFound, vec![], String::new(), None);
    assert_eq!(
        response.body_to_bytes(),
        b"HTTP/1.1 404 Not Found\r\nContent-Type: text/plain\r\nContent-Length: 0\r\n\r\n".to_vec()
    );
}

#[test]
fn content_type_of_the_handler_is_kept() {
    let headers = vec![
        Header::from_text(SupprotedHeader::UserAgent, "x"),
        Header::from_text(SupprotedHeader::ContentType, "application/octet-stream"),
    ];
    let response = HttpResponse::from_bytes(StatusCode::OK, headers, vec![0xff, 0x00], None);
    let mut expected =
        b"HTTP/1.1 200 OK\r\nUser-Agent: x\r\nContent-Type: application/octet-stream\r\nContent-Length: 2\r\n\r\n"
            .to_vec();
    expected.extend_from_slice(&[0xff, 0x00]);
    assert_eq!(response.body_to_bytes(), expected);
}

#[test]
fn every_status_has_its_line() {
    let lines = [
        (StatusCode::OK, "HTTP/1.1 200 OK\r\n"),
        (StatusCode::Created, "HTTP/1.1 201 Created\r\n"),
        (StatusCode::BadRequest, "HTTP/1.1 400 Bad Request\r\n"),
        (StatusCode::NotFound, "HTTP/1.1 404 Not Found\r\n"),
        (StatusCode::InternalServerError, "HTTP/1.1 500 Internal Server Error\r\n"),
    ];
    for (status, line) in lines {
        let bytes = HttpResponse::new(status, vec![], String::new(), None).body_to_bytes();
        assert!(bytes.starts_with(line.as_bytes()));
    }
}

#[test]
fn gzip_response_on_the_wire() {
    let text = "Hello, World! Hello, World! Hello, World!";
    let response =
        HttpResponse::new(StatusCode::OK, vec![], text.to_string(), Some(SupportedEncoding::Gzip));
    let (head, body) = cut(&response.body_to_bytes());
    assert_eq!(
        head,
        format!(
            "HTTP/1.1 200 OK\r\nContent-Type: text/plain\r\nContent-Encoding: gzip\r\nContent-Length: {}\r\n\r\n",
            body.len()
        )
    );
    assert_ne!(body, text.as_bytes());
    assert_eq!(&body[..2], &[0x1f, 0x8b]);
    assert_eq!(gunzip(&body), text.as_bytes());
    let plain = HttpResponse::new(StatusCode::OK, vec![], text.to_string(), None);
    assert_eq!(gunzip(&body), cut(&plain.body_to_bytes()).1);
}

#[test]
fn deflate_response_names_its_own_coding() {
    let text = "aaaaaaaaaaaaaaaaaaaaaaaaaaaaaaaaaaaaaaaaaaaaaaaa";
    let response = HttpResponse::new(
        StatusCode::OK,
        vec![],
        text.to_string(),
        Some(SupportedEncoding::Deflate),
    );
    let (head, body) = cut(&response.body_to_bytes());
    assert_eq!(
        head,
        format!(
            "HTTP/1.1 200 OK\r\nContent-Type: text/plain\r\nContent-Encoding: deflate\r\nContent-Length: {}\r\n\r\n",
            body.len()
        )
    );
    assert!(body.len() < text.len());
    assert_eq!(inflate(&body), text.as_bytes());
}

#[test]
fn compress_gives_decodable_streams() {
    for data in [&b""[..], &b"a"[..], &[0u8, 255, 13, 10, 13, 10][..], &[42u8; 5000][..]] {
        let gz = compress(data, SupportedEncoding::Gzip).unwrap();
        assert_eq!(gunzip(&gz), data);
        let raw = compress(data, SupportedEncoding::Deflate).unwrap();
        assert_eq!(inflate(&raw), data);
        assert_ne!(gz, data);
        assert_ne!(raw, data);
        assert_ne!(gz, raw);
    }
}

#[test]
fn compress_is_a_function_of_its_input() {
    let data = b"the same bytes in, the same bytes out";
    assert_eq!(
        compress(data, SupportedEncoding::Gzip),
        compress(data, SupportedEncoding::Gzip)
    );
    assert_eq!(
        compress(data, SupportedEncoding::Deflate),
        compress(data, SupportedEncoding::Deflate)
    );
}

#[test]
fn compress_string_codes_the_body() {
    let response = HttpResponse::new(StatusCode::OK, vec![], "body text".to_string(), None);
    let gz = response.compress_string(SupportedEncoding::Gzip).unwrap();
    assert_eq!(gunzip(&gz), b"body text");
    let raw = response.compress_string(SupportedEncoding::Deflate).unwrap();
    assert_eq!(inflate(&raw), b"body text");
}

#[test]
fn serialize_sends_the_body_it_is_given() {
    let response =
        HttpResponse::new(StatusCode::OK, vec![], "content".to_string(), Some(SupportedEncoding::Gzip));
    assert_eq!(
        response.serialize(Some(vec![1, 2, 3])),
        b"HTTP/1.1 200 OK\r\nContent-Type: text/plain\r\nContent-Encoding: gzip\r\nContent-Length: 3\r\n\r\n\x01\x02\x03"
            .to_vec()
    );
}

#[test]
fn encoder_failure_is_a_server_error() {
    let response = HttpResponse::new(
        StatusCode::OK,
        vec![Header::from_text(SupprotedHeader::ContentType, "text/html")],
        "content".to_string(),
        Some(SupportedEncoding::Gzip),
    );
    assert_eq!(
        response.serialize(None),
        b"HTTP/1.1 500 Internal Server Error\r\nContent-Type: text/plain\r\nContent-Length: 21\r\n\r\nInternal Server Error"
            .to_vec()
    );
}

#[test]
fn to_string_shows_the_status_line_and_the_headers() {
    let response = HttpResponse::new(StatusCode::OK, vec![], "abc".to_string(), None);
    assert_eq!(response.to_string(), "HTTP/1.1 200 OK\r\n\r\n");
    let response = HttpResponse::new(
        StatusCode::NotFound,
        vec![Header::from_text(SupprotedHeader::ContentType, "text/html")],
        "abc".to_string(),
        None,
    );
    assert_eq!(response.to_string(), "HTTP/1.1 404 Not Found\r\nContent-Type: text/html\r\n");
    let response = HttpResponse::new(
        StatusCode::Created,
        vec![
            Header::from_text(SupprotedHeader::ContentType, "text/html"),
            Header::from_text(SupprotedHeader::UserAgent, "x"),
        ],
        String::new(),
        None,
    );
    assert_eq!(
        response.to_string(),
        "HTTP/1.1 201 Created\r\nContent-Type: text/html\r\nUser-Agent: x\r\n"
    );
}

#[test]
fn gzip_of_empty_content_is_not_empty() {
    let response =
        HttpResponse::new(StatusCode::OK, vec![], String::new(), Some(SupportedEncoding::Gzip));
    let (head, body) = cut(&response.body_to_bytes());
    assert!(body.len() >= 18);
    assert_eq!(&body[..2], &[0x1f, 0x8b]);
    assert_eq!(gunzip(&body), b"");
    assert!(head.ends_with(&format!("Content-Length: {}\r\n\r\n", body.len())));
    assert!(!head.contains("Content-Length: 0\r\n"));
}

#[test]
fn gzip_streams_have_header_and_trailer() {
    for data in [&b""[..], &b"a"[..], &[0u8; 4096][..]] {
        let stream = compress(data, SupportedEncoding::Gzip).unwrap();
        assert!(stream.len() >= 18);
        assert_eq!(stream[0], 0x1f);
        assert_eq!(stream[1], 0x8b);
        let n = stream.len();
        let size = u32::from_le_bytes([stream[n - 4], stream[n - 3], stream[n - 2], stream[n - 1]]);
        assert_eq!(size as usize, data.len());
    }
}

#[test]
fn head_holds_one_empty_line_and_one_content_length() {
    let headers = vec![
        Header::from_text(SupprotedHeader::ContentType, "text/html"),
        Header::from_text(SupprotedHeader::UserAgent, "x"),
    ];
    let content = "line\r\n\r\nline\r\n\r\n".to_string();
    for encoding in [None, Some(SupportedEncoding::Gzip), Some(SupportedEncoding::Deflate)] {
        let response = HttpResponse::new(StatusCode::OK, headers.clone(), content.clone(), encoding);
        let bytes = response.body_to_bytes();
        let (head, body) = cut(&bytes);
        assert_eq!(head.matches("\r\n\r\n").count(), 1);
        assert_eq!(head.matches("Content-Length: ").count(), 1);
        assert_eq!(head.matches("Content-Encoding: ").count(), usize::from(encoding.is_some()));
        assert!(head.ends_with(&format!("Content-Length: {}\r\n\r\n", body.len())));
        assert_eq!(head.len() + body.len(), bytes.len());
        match encoding {
            None => assert_eq!(body, content.as_bytes()),
            Some(SupportedEncoding::Gzip) => assert_eq!(gunzip(&body), content.as_bytes()),
            Some(SupportedEncoding::Deflate) => assert_eq!(inflate(&body), content.as_bytes()),
        }
    }
}
