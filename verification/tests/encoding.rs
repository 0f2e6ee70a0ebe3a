use http_server::header::Header;
use http_server::tokens::SupportedEncoding::{Deflate, Gzip};
use http_server::tokens::{SupportedEncoding, SupprotedHeader};

fn accept(value: &str) -> Vec<Header> {
    vec![
        Header::from_text(SupprotedHeader::UserAgent, " gzip"),
        Header::from_text(SupprotedHeader::AcceptEncoding, value),
    ]
}

#[test]
fn known_encodings_are_listed_in_order() {
    assert_eq!(SupportedEncoding::retrieve_supported_encodings(&accept(" gzip")), vec![Gzip]);
    assert_eq!(
        SupportedEncoding::retrieve_supported_encodings(&accept(" deflate, br ,gzip ")),
        vec![Deflate, Gzip]
    );
    assert_eq!(
        SupportedEncoding::retrieve_supported_encodings(&accept("gzip,gzip,,deflate")),
        vec![Gzip, Gzip, Deflate]
    );
    assert_eq!(
        SupportedEncoding::retrieve_supported_encodings(&accept("invalid-1, invalid-2")),
        vec![]
    );
    assert_eq!(SupportedEncoding::retrieve_supported_encodings(&accept("")), vec![]);
    assert_eq!(SupportedEncoding::retrieve_supported_encodings(&accept("gzip;q=1.0")), vec![]);
    assert_eq!(SupportedEncoding::retrieve_supported_encodings(&accept("GZIP")), vec![]);
}

#[test]
fn only_the_first_accept_encoding_header_counts() {
    let headers = vec![
        Header::from_text(SupprotedHeader::AcceptEncoding, " br"),
        Header::from_text(SupprotedHeader::AcceptEncoding, " gzip"),
    ];
    assert_eq!(SupportedEncoding::retrieve_supported_encodings(&headers), vec![]);
    assert_eq!(SupportedEncoding::negotiate(&headers), None);
}

#[test]
fn without_the_header_nothing_is_accepted() {
    assert_eq!(SupportedEncoding::retrieve_supported_encodings(&[]), vec![]);
    let headers = vec![Header::from_text(SupprotedHeader::UserAgent, " gzip")];
    assert_eq!(SupportedEncoding::retrieve_supported_encodings(&headers), vec![]);
    assert_eq!(SupportedEncoding::negotiate(&headers), None);
}

#[test]
fn gzip_is_chosen_where_it_is_accepted() {
    assert_eq!(SupportedEncoding::select(&[Gzip]), Some(Gzip));
    assert_eq!(SupportedEncoding::select(&[Deflate, Gzip]), Some(Gzip));
    assert_eq!(SupportedEncoding::negotiate(&accept(" br, gzip")), Some(Gzip));
}

#[test]
fn deflate_alone_is_never_chosen() {
    assert_eq!(SupportedEncoding::select(&[]), None);
    assert_eq!(SupportedEncoding::select(&[Deflate]), None);
    assert_eq!(SupportedEncoding::select(&[Deflate, Deflate]), None);
    assert_eq!(SupportedEncoding::negotiate(&accept(" deflate")), None);
}
