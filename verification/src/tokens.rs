//! The closed vocabulary of the protocol: status codes, header names, media
//! types, content codings, methods and versions.
//!
//! Each set is an enumeration with one table that gives the wire form of
//! every member. `to_string` and `as_str` read the table; `from_str` inverts
//! it and answers `None` for a token outside the set. Tokens are compared
//! exactly, letter case included.

use vstd::prelude::*;
use crate::text::str_eq;

verus! {

/// The status of a response. Its wire form is the reason phrase.
#[derive(Debug, Clone, Copy, PartialEq, Eq, Structural)]
pub enum StatusCode {
    OK,
    Created,
    BadRequest,
    NotFound,
    InternalServerError,
}

impl StatusCode {
    /// The wire form of this member.
    pub open spec fn wire(self) -> Seq<char> {
        match self {
            StatusCode::OK => "OK"@,
            StatusCode::Created => "Created"@,
            StatusCode::BadRequest => "Bad Request"@,
            StatusCode::NotFound => "Not Found"@,
            StatusCode::InternalServerError => "Internal Server Error"@,
        }
    }

    /// The member whose wire form is `token`, if there is one.
    pub open spec fn parse(token: Seq<char>) -> Option<Self> {
        if token == "OK"@ {
            Some(StatusCode::OK)
        } else if token == "Created"@ {
            Some(StatusCode::Created)
        } else if token == "Bad Request"@ {
            Some(StatusCode::BadRequest)
        } else if token == "Not Found"@ {
            Some(StatusCode::NotFound)
        } else if token == "Internal Server Error"@ {
            Some(StatusCode::InternalServerError)
        } else {
            None
        }
    }

    /// The three-digit number of this status.
    pub open spec fn spec_code(self) -> u16 {
        match self {
            StatusCode::OK => 200,
            StatusCode::Created => 201,
            StatusCode::BadRequest => 400,
            StatusCode::NotFound => 404,
            StatusCode::InternalServerError => 500,
        }
    }

    /// The three-digit number of this status.
    pub fn code(&self) -> (r: u16)
        ensures
            r == self.spec_code(),
    {
        match self {
            StatusCode::OK => 200,
            StatusCode::Created => 201,
            StatusCode::BadRequest => 400,
            StatusCode::NotFound => 404,
            StatusCode::InternalServerError => 500,
        }
    }

    /// The wire form, borrowed from the table.
    pub fn as_str(&self) -> (r: &'static str)
        ensures
            r@ == self.wire(),
    {
        match self {
            StatusCode::OK => "OK",
            StatusCode::Created => "Created",
            StatusCode::BadRequest => "Bad Request",
            StatusCode::NotFound => "Not Found",
            StatusCode::InternalServerError => "Internal Server Error",
        }
    }

    /// The wire form, as an owned string.
    pub fn to_string(&self) -> (r: String)
        ensures
            r@ == self.wire(),
    {
        self.as_str().to_owned()
    }

    /// Reads a token. Succeeds exactly on the wire forms of the table.
    pub fn from_str(token: &str) -> (r: Option<Self>)
        ensures
            r == Self::parse(token@),
    {
        if str_eq(token, "OK") {
            Some(StatusCode::OK)
        } else if str_eq(token, "Created") {
            Some(StatusCode::Created)
        } else if str_eq(token, "Bad Request") {
            Some(StatusCode::BadRequest)
        } else if str_eq(token, "Not Found") {
            Some(StatusCode::NotFound)
        } else if str_eq(token, "Internal Server Error") {
            Some(StatusCode::InternalServerError)
        } else {
            None
        }
    }

    /// Reading the wire form of a member gives that member back.
    pub proof fn lemma_parse_wire(self)
        ensures
            Self::parse(self.wire()) == Some(self),
    {
        reveal_strlit("OK");
        assert("OK"@.len() == 2);
        reveal_strlit("Created");
        assert("Created"@.len() == 7);
        reveal_strlit("Bad Request");
        assert("Bad Request"@.len() == 11);
        reveal_strlit("Not Found");
        assert("Not Found"@.len() == 9);
        reveal_strlit("Internal Server Error");
        assert("Internal Server Error"@.len() == 21);
    }

    /// A token that reads as a member is the wire form of that member.
    pub proof fn lemma_wire_parse(token: Seq<char>)
        ensures
            Self::parse(token) matches Some(member) ==> member.wire() == token,
    {
    }
}

/// The header names that the server reads or writes. A header of any other
/// name is invisible to it.
#[derive(Debug, Clone, Copy, PartialEq, Eq, Structural)]
pub enum SupprotedHeader {
    ContentType,
    ContentLength,
    ContentEncoding,
    UserAgent,
    AcceptEncoding,
}

impl SupprotedHeader {
    /// The wire form of this member.
    pub open spec fn wire(self) -> Seq<char> {
        match self {
            SupprotedHeader::ContentType => "Content-Type"@,
            SupprotedHeader::ContentLength => "Content-Length"@,
            SupprotedHeader::ContentEncoding => "Content-Encoding"@,
            SupprotedHeader::UserAgent => "User-Agent"@,
            SupprotedHeader::AcceptEncoding => "Accept-Encoding"@,
        }
    }

    /// The member whose wire form is `token`, if there is one.
    pub open spec fn parse(token: Seq<char>) -> Option<Self> {
        if token == "Content-Type"@ {
            Some(SupprotedHeader::ContentType)
        } else if token == "Content-Length"@ {
            Some(SupprotedHeader::ContentLength)
        } else if token == "Content-Encoding"@ {
            Some(SupprotedHeader::ContentEncoding)
        } else if token == "User-Agent"@ {
            Some(SupprotedHeader::UserAgent)
        } else if token == "Accept-Encoding"@ {
            Some(SupprotedHeader::AcceptEncoding)
        } else {
            None
        }
    }

    /// The wire form, borrowed from the table.
    pub fn as_str(&self) -> (r: &'static str)
        ensures
            r@ == self.wire(),
    {
        match self {
            SupprotedHeader::ContentType => "Content-Type",
            SupprotedHeader::ContentLength => "Content-Length",
            SupprotedHeader::ContentEncoding => "Content-Encoding",
            SupprotedHeader::UserAgent => "User-Agent",
            SupprotedHeader::AcceptEncoding => "Accept-Encoding",
        }
    }

    /// The wire form, as an owned string.
    pub fn to_string(&self) -> (r: String)
        ensures
            r@ == self.wire(),
    {
        self.as_str().to_owned()
    }

    /// Reads a token. Succeeds exactly on the wire forms of the table.
    pub fn from_str(token: &str) -> (r: Option<Self>)
        ensures
            r == Self::parse(token@),
    {
        if str_eq(token, "Content-Type") {
            Some(SupprotedHeader::ContentType)
        } else if str_eq(token, "Content-Length") {
            Some(SupprotedHeader::ContentLength)
        } else if str_eq(token, "Content-Encoding") {
            Some(SupprotedHeader::ContentEncoding)
        } else if str_eq(token, "User-Agent") {
            Some(SupprotedHeader::UserAgent)
        } else if str_eq(token, "Accept-Encoding") {
            Some(SupprotedHeader::AcceptEncoding)
        } else {
            None
        }
    }

    /// Reading the wire form of a member gives that member back.
    pub proof fn lemma_parse_wire(self)
        ensures
            Self::parse(self.wire()) == Some(self),
    {
        reveal_strlit("Content-Type");
        assert("Content-Type"@.len() == 12);
        reveal_strlit("Content-Length");
        assert("Content-Length"@.len() == 14);
        reveal_strlit("Content-Encoding");
        assert("Content-Encoding"@.len() == 16);
        reveal_strlit("User-Agent");
        assert("User-Agent"@.len() == 10);
        reveal_strlit("Accept-Encoding");
        assert("Accept-Encoding"@.len() == 15);
    }

    /// A token that reads as a member is the wire form of that member.
    pub proof fn lemma_wire_parse(token: Seq<char>)
        ensures
            Self::parse(token) matches Some(member) ==> member.wire() == token,
    {
    }
}

/// The media types that a response can declare.
#[derive(Debug, Clone, Copy, PartialEq, Eq, Structural)]
pub enum ContentType {
    TextPlain,
    ApplicationJson,
    ApplicationOctetStream,
    TextHtml,
}

impl ContentType {
    /// The wire form of this member.
    pub open spec fn wire(self) -> Seq<char> {
        match self {
            ContentType::TextPlain => "text/plain"@,
            ContentType::ApplicationJson => "application/json"@,
            ContentType::ApplicationOctetStream => "application/octet-stream"@,
            ContentType::TextHtml => "text/html"@,
        }
    }

    /// The member whose wire form is `token`, if there is one.
    pub open spec fn parse(token: Seq<char>) -> Option<Self> {
        if token == "text/plain"@ {
            Some(ContentType::TextPlain)
        } else if token == "application/json"@ {
            Some(ContentType::ApplicationJson)
        } else if token == "application/octet-stream"@ {
            Some(ContentType::ApplicationOctetStream)
        } else if token == "text/html"@ {
            Some(ContentType::TextHtml)
        } else {
            None
        }
    }

    /// The wire form, borrowed from the table.
    pub fn as_str(&self) -> (r: &'static str)
        ensures
            r@ == self.wire(),
    {
        match self {
            ContentType::TextPlain => "text/plain",
            ContentType::ApplicationJson => "application/json",
            ContentType::ApplicationOctetStream => "application/octet-stream",
            ContentType::TextHtml => "text/html",
        }
    }

    /// The wire form, as an owned string.
    pub fn to_string(&self) -> (r: String)
        ensures
            r@ == self.wire(),
    {
        self.as_str().to_owned()
    }

    /// Reads a token. Succeeds exactly on the wire forms of the table.
    pub fn from_str(token: &str) -> (r: Option<Self>)
        ensures
            r == Self::parse(token@),
    {
        if str_eq(token, "text/plain") {
            Some(ContentType::TextPlain)
        } else if str_eq(token, "application/json") {
            Some(ContentType::ApplicationJson)
        } else if str_eq(token, "application/octet-stream") {
            Some(ContentType::ApplicationOctetStream)
        } else if str_eq(token, "text/html") {
            Some(ContentType::TextHtml)
        } else {
            None
        }
    }

    /// Reading the wire form of a member gives that member back.
    pub proof fn lemma_parse_wire(self)
        ensures
            Self::parse(self.wire()) == Some(self),
    {
        reveal_strlit("text/plain");
        assert("text/plain"@.len() == 10);
        reveal_strlit("application/json");
        assert("application/json"@.len() == 16);
        reveal_strlit("application/octet-stream");
        assert("application/octet-stream"@.len() == 24);
        reveal_strlit("text/html");
        assert("text/html"@.len() == 9);
    }

    /// A token that reads as a member is the wire form of that member.
    pub proof fn lemma_wire_parse(token: Seq<char>)
        ensures
            Self::parse(token) matches Some(member) ==> member.wire() == token,
    {
    }
}

/// The content codings that the server knows.
#[derive(Debug, Clone, Copy, PartialEq, Eq, Structural)]
pub enum SupportedEncoding {
    Gzip,
    Deflate,
}

impl SupportedEncoding {
    /// The wire form of this member.
    pub open spec fn wire(self) -> Seq<char> {
        match self {
            SupportedEncoding::Gzip => "gzip"@,
            SupportedEncoding::Deflate => "deflate"@,
        }
    }

    /// The member whose wire form is `token`, if there is one.
    pub open spec fn parse(token: Seq<char>) -> Option<Self> {
        if token == "gzip"@ {
            Some(SupportedEncoding::Gzip)
        } else if token == "deflate"@ {
            Some(SupportedEncoding::Deflate)
        } else {
            None
        }
    }

    /// The wire form, borrowed from the table.
    pub fn as_str(&self) -> (r: &'static str)
        ensures
            r@ == self.wire(),
    {
        match self {
            SupportedEncoding::Gzip => "gzip",
            SupportedEncoding::Deflate => "deflate",
        }
    }

    /// The wire form, as an owned string.
    pub fn to_string(&self) -> (r: String)
        ensures
            r@ == self.wire(),
    {
        self.as_str().to_owned()
    }

    /// Reads a token. Succeeds exactly on the wire forms of the table.
    pub fn from_str(token: &str) -> (r: Option<Self>)
        ensures
            r == Self::parse(token@),
    {
        if str_eq(token, "gzip") {
            Some(SupportedEncoding::Gzip)
        } else if str_eq(token, "deflate") {
            Some(SupportedEncoding::Deflate)
        } else {
            None
        }
    }

    /// Reading the wire form of a member gives that member back.
    pub proof fn lemma_parse_wire(self)
        ensures
            Self::parse(self.wire()) == Some(self),
    {
        reveal_strlit("gzip");
        assert("gzip"@.len() == 4);
        reveal_strlit("deflate");
        assert("deflate"@.len() == 7);
    }

    /// A token that reads as a member is the wire form of that member.
    pub proof fn lemma_wire_parse(token: Seq<char>)
        ensures
            Self::parse(token) matches Some(member) ==> member.wire() == token,
    {
    }
}

/// The request methods.
#[derive(Debug, Clone, Copy, PartialEq, Eq, Structural)]
pub enum HttpMethod {
    Get,
    Post,
    Put,
    Delete,
    Patch,
    Head,
    Options,
    Connect,
    Trace,
}

impl HttpMethod {
    /// The wire form of this member.
    pub open spec fn wire(self) -> Seq<char> {
        match self {
            HttpMethod::Get => "GET"@,
            HttpMethod::Post => "POST"@,
            HttpMethod::Put => "PUT"@,
            HttpMethod::Delete => "DELETE"@,
            HttpMethod::Patch => "PATCH"@,
            HttpMethod::Head => "HEAD"@,
            HttpMethod::Options => "OPTIONS"@,
            HttpMethod::Connect => "CONNECT"@,
            HttpMethod::Trace => "TRACE"@,
        }
    }

    /// The member whose wire form is `token`, if there is one.
    pub open spec fn parse(token: Seq<char>) -> Option<Self> {
        if token == "GET"@ {
            Some(HttpMethod::Get)
        } else if token == "POST"@ {
            Some(HttpMethod::Post)
        } else if token == "PUT"@ {
            Some(HttpMethod::Put)
        } else if token == "DELETE"@ {
            Some(HttpMethod::Delete)
        } else if token == "PATCH"@ {
            Some(HttpMethod::Patch)
        } else if token == "HEAD"@ {
            Some(HttpMethod::Head)
        } else if token == "OPTIONS"@ {
            Some(HttpMethod::Options)
        } else if token == "CONNECT"@ {
            Some(HttpMethod::Connect)
        } else if token == "TRACE"@ {
            Some(HttpMethod::Trace)
        } else {
            None
        }
    }

    /// The wire form, borrowed from the table.
    pub fn as_str(&self) -> (r: &'static str)
        ensures
            r@ == self.wire(),
    {
        match self {
            HttpMethod::Get => "GET",
            HttpMethod::Post => "POST",
            HttpMethod::Put => "PUT",
            HttpMethod::Delete => "DELETE",
            HttpMethod::Patch => "PATCH",
            HttpMethod::Head => "HEAD",
            HttpMethod::Options => "OPTIONS",
            HttpMethod::Connect => "CONNECT",
            HttpMethod::Trace => "TRACE",
        }
    }

    /// The wire form, as an owned string.
    pub fn to_string(&self) -> (r: String)
        ensures
            r@ == self.wire(),
    {
        self.as_str().to_owned()
    }

    /// Reads a token. Succeeds exactly on the wire forms of the table.
    pub fn from_str(token: &str) -> (r: Option<Self>)
        ensures
            r == Self::parse(token@),
    {
        if str_eq(token, "GET") {
            Some(HttpMethod::Get)
        } else if str_eq(token, "POST") {
            Some(HttpMethod::Post)
        } else if str_eq(token, "PUT") {
            Some(HttpMethod::Put)
        } else if str_eq(token, "DELETE") {
            Some(HttpMethod::Delete)
        } else if str_eq(token, "PATCH") {
            Some(HttpMethod::Patch)
        } else if str_eq(token, "HEAD") {
            Some(HttpMethod::Head)
        } else if str_eq(token, "OPTIONS") {
            Some(HttpMethod::Options)
        } else if str_eq(token, "CONNECT") {
            Some(HttpMethod::Connect)
        } else if str_eq(token, "TRACE") {
            Some(HttpMethod::Trace)
        } else {
            None
        }
    }

    /// Reading the wire form of a member gives that member back.
    pub proof fn lemma_parse_wire(self)
        ensures
            Self::parse(self.wire()) == Some(self),
    {
        reveal_strlit("GET");
        assert("GET"@.len() == 3 && "GET"@[0] == 'G');
        reveal_strlit("POST");
        assert("POST"@.len() == 4 && "POST"@[0] == 'P');
        reveal_strlit("PUT");
        assert("PUT"@.len() == 3 && "PUT"@[0] == 'P');
        reveal_strlit("DELETE");
        assert("DELETE"@.len() == 6 && "DELETE"@[0] == 'D');
        reveal_strlit("PATCH");
        assert("PATCH"@.len() == 5 && "PATCH"@[0] == 'P');
        reveal_strlit("HEAD");
        assert("HEAD"@.len() == 4 && "HEAD"@[0] == 'H');
        reveal_strlit("OPTIONS");
        assert("OPTIONS"@.len() == 7 && "OPTIONS"@[0] == 'O');
        reveal_strlit("CONNECT");
        assert("CONNECT"@.len() == 7 && "CONNECT"@[0] == 'C');
        reveal_strlit("TRACE");
        assert("TRACE"@.len() == 5 && "TRACE"@[0] == 'T');
    }

    /// A token that reads as a member is the wire form of that member.
    pub proof fn lemma_wire_parse(token: Seq<char>)
        ensures
            Self::parse(token) matches Some(member) ==> member.wire() == token,
    {
    }
}

/// The protocol versions that a request line may name.
#[derive(Debug, Clone, Copy, PartialEq, Eq, Structural)]
#[allow(non_camel_case_types)]
pub enum HttpVersion {
    Http1_0,
    Http1_1,
    Http2_0,
}

impl HttpVersion {
    /// The wire form of this member.
    pub open spec fn wire(self) -> Seq<char> {
        match self {
            HttpVersion::Http1_0 => "HTTP/1.0"@,
            HttpVersion::Http1_1 => "HTTP/1.1"@,
            HttpVersion::Http2_0 => "HTTP/2.0"@,
        }
    }

    /// The member whose wire form is `token`, if there is one.
    pub open spec fn parse(token: Seq<char>) -> Option<Self> {
        if token == "HTTP/1.0"@ {
            Some(HttpVersion::Http1_0)
        } else if token == "HTTP/1.1"@ {
            Some(HttpVersion::Http1_1)
        } else if token == "HTTP/2.0"@ {
            Some(HttpVersion::Http2_0)
        } else {
            None
        }
    }

    /// The wire form, borrowed from the table.
    pub fn as_str(&self) -> (r: &'static str)
        ensures
            r@ == self.wire(),
    {
        match self {
            HttpVersion::Http1_0 => "HTTP/1.0",
            HttpVersion::Http1_1 => "HTTP/1.1",
            HttpVersion::Http2_0 => "HTTP/2.0",
        }
    }

    /// The wire form, as an owned string.
    pub fn to_string(&self) -> (r: String)
        ensures
            r@ == self.wire(),
    {
        self.as_str().to_owned()
    }

    /// Reads a token. Succeeds exactly on the wire forms of the table.
    pub fn from_str(token: &str) -> (r: Option<Self>)
        ensures
            r == Self::parse(token@),
    {
        if str_eq(token, "HTTP/1.0") {
            Some(HttpVersion::Http1_0)
        } else if str_eq(token, "HTTP/1.1") {
            Some(HttpVersion::Http1_1)
        } else if str_eq(token, "HTTP/2.0") {
            Some(HttpVersion::Http2_0)
        } else {
            None
        }
    }

    /// Reading the wire form of a member gives that member back.
    pub proof fn lemma_parse_wire(self)
        ensures
            Self::parse(self.wire()) == Some(self),
    {
        reveal_strlit("HTTP/1.0");
        assert("HTTP/1.0"@.len() == 8 && "HTTP/1.0"@[5] == '1' && "HTTP/1.0"@[7] == '0');
        reveal_strlit("HTTP/1.1");
        assert("HTTP/1.1"@.len() == 8 && "HTTP/1.1"@[5] == '1' && "HTTP/1.1"@[7] == '1');
        reveal_strlit("HTTP/2.0");
        assert("HTTP/2.0"@.len() == 8 && "HTTP/2.0"@[5] == '2' && "HTTP/2.0"@[7] == '0');
    }

    /// A token that reads as a member is the wire form of that member.
    pub proof fn lemma_wire_parse(token: Seq<char>)
        ensures
            Self::parse(token) matches Some(member) ==> member.wire() == token,
    {
    }
}

} // verus!
