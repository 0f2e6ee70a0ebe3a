use http_server::tokens::{
    ContentType, HttpMethod, HttpVersion, StatusCode, SupportedEncoding, SupprotedHeader,
};

#[test]
fn status_codes_have_their_numbers_and_phrases() {
    let table = [
        (StatusCode::OK, 200, "OK"),
        (StatusCode::Created, 201, "Created"),
        (StatusCode::BadRequest, 400, "Bad Request"),
        (StatusCode::NotFound, 404, "Not Found"),
        (StatusCode::InternalServerError, 500, "Internal Server Error"),
    ];
    for (status, code, phrase) in table {
        assert_eq!(status.code(), code);
        assert_eq!(status.as_str(), phrase);
        assert_eq!(status.to_string(), phrase);
        assert_eq!(StatusCode::from_str(phrase), Some(status));
    }
    assert_eq!(StatusCode::from_str("ok"), None);
    assert_eq!(StatusCode::from_str("200"), None);
    assert_eq!(StatusCode::from_str(""), None);
}

#[test]
fn header_names_round_trip() {
    let table = [
        (SupprotedHeader::ContentType, "Content-Type"),
        (SupprotedHeader::ContentLength, "Content-Length"),
        (SupprotedHeader::ContentEncoding, "Content-Encoding"),
        (SupprotedHeader::UserAgent, "User-Agent"),
        (SupprotedHeader::AcceptEncoding, "Accept-Encoding"),
    ];
    for (name, token) in table {
        assert_eq!(name.to_string(), token);
        assert_eq!(SupprotedHeader::from_str(token), Some(name));
    }
}

#[test]
fn header_names_outside_the_set_are_unrecognized() {
    for token in ["Host", "Accept", "user-agent", "USER-AGENT", " User-Agent", "User-Agent ", ""] {
        assert_eq!(SupprotedHeader::from_str(token), None, "{:?}", token);
    }
}

#[test]
fn content_types_round_trip() {
    let table = [
        (ContentType::TextPlain, "text/plain"),
        (ContentType::ApplicationJson, "application/json"),
        (ContentType::ApplicationOctetStream, "application/octet-stream"),
        (ContentType::TextHtml, "text/html"),
    ];
    for (kind, token) in table {
        assert_eq!(kind.to_string(), token);
        assert_eq!(ContentType::from_str(token), Some(kind));
    }
    assert_eq!(ContentType::from_str("text/css"), None);
}

#[test]
fn encodings_round_trip() {
    assert_eq!(SupportedEncoding::Gzip.to_string(), "gzip");
    assert_eq!(SupportedEncoding::Deflate.to_string(), "deflate");
    assert_eq!(SupportedEncoding::from_str("gzip"), Some(SupportedEncoding::Gzip));
    assert_eq!(SupportedEncoding::from_str("deflate"), Some(SupportedEncoding::Deflate));
    assert_eq!(SupportedEncoding::from_str("br"), None);
    assert_eq!(SupportedEncoding::from_str("GZIP"), None);
    assert_eq!(SupportedEncoding::from_str(" gzip"), None);
}

#[test]
fn methods_round_trip() {
    let table = [
        (HttpMethod::Get, "GET"),
        (HttpMethod::Post, "POST"),
        (HttpMethod::Put, "PUT"),
        (HttpMethod::Delete, "DELETE"),
        (HttpMethod::Patch, "PATCH"),
        (HttpMethod::Head, "HEAD"),
        (HttpMethod::Options, "OPTIONS"),
        (HttpMethod::Connect, "CONNECT"),
        (HttpMethod::Trace, "TRACE"),
    ];
    for (method, token) in table {
        assert_eq!(method.to_string(), token);
        assert_eq!(method.as_str(), token);
        assert_eq!(HttpMethod::from_str(token), Some(method));
    }
    assert_eq!(HttpMethod::from_str("get"), None);
    assert_eq!(HttpMethod::from_str("FETCH"), None);
}

#[test]
fn versions_round_trip() {
    let table = [
        (HttpVersion::Http1_0, "HTTP/1.0"),
        (HttpVersion::Http1_1, "HTTP/1.1"),
        (HttpVersion::Http2_0, "HTTP/2.0"),
    ];
    for (version, token) in table {
        assert_eq!(version.to_string(), token);
        assert_eq!(HttpVersion::from_str(token), Some(version));
    }
    assert_eq!(HttpVersion::from_str("HTTP/3.0"), None);
    assert_eq!(HttpVersion::from_str("http/1.1"), None);
}
