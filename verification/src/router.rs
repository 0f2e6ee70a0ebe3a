//! The router: from a request to what the connection handler does next.
//!
//! Three routes answer at once. The two under `/files/` need the file store,
//! which this library does not touch: for them the router names the file and
//! what to do with it, and the outcome of that comes back to
//! `file_read_response` or `file_write_response`.

use vstd::prelude::*;
use vstd::string::*;
use vstd::utf8::encode_utf8;
use crate::encoding::negotiated_encoding;
use crate::header::{header_value, header_views, Header, HeaderView};
use crate::numeral::{at_most, decimal_value, parse_decimal_capped};
use crate::request::{parse_request, HttpRequest, ParseError, RequestView};
use crate::response::{HttpResponse, ResponseView};
use crate::text::{matches_at, spec_trim, str_eq, strip_prefix, trim};
use crate::tokens::{ContentType, HttpMethod, StatusCode, SupportedEncoding, SupprotedHeader};

verus! {

/// What the connection handler does next.
#[derive(Debug)]
pub enum Action {
    /// Send this response.
    Respond(HttpResponse),
    /// Read the file at `path`, and send what `file_read_response` makes of
    /// the outcome.
    ReadFile { path: String, encoding: Option<SupportedEncoding> },
    /// Write `contents` to the file at `path`, and send what
    /// `file_write_response` makes of the outcome.
    WriteFile { path: String, contents: Vec<u8>, encoding: Option<SupportedEncoding> },
}

/// What an action is.
pub enum ActionView {
    Respond(ResponseView),
    ReadFile { path: Seq<char>, encoding: Option<SupportedEncoding> },
    WriteFile { path: Seq<char>, contents: Seq<u8>, encoding: Option<SupportedEncoding> },
}

impl View for Action {
    type V = ActionView;

    open spec fn view(&self) -> ActionView {
        match self {
            Action::Respond(response) => ActionView::Respond(response@),
            Action::ReadFile { path, encoding } => ActionView::ReadFile {
                path: path@,
                encoding: *encoding,
            },
            Action::WriteFile { path, contents, encoding } => ActionView::WriteFile {
                path: path@,
                contents: contents@,
                encoding: *encoding,
            },
        }
    }
}

/// The path of the greeting.
pub open spec fn root_path() -> Seq<char> {
    "/"@
}

/// The prefix of the paths that are echoed.
pub open spec fn echo_prefix() -> Seq<char> {
    "/echo/"@
}

/// The path that reports the client's `User-Agent`.
pub open spec fn user_agent_path() -> Seq<char> {
    "/user-agent"@
}

/// The prefix of the paths that name files.
pub open spec fn files_prefix() -> Seq<char> {
    "/files/"@
}

/// The body of the greeting.
pub open spec fn greeting() -> Seq<char> {
    "Hello, World!"@
}

/// A response without headers of its own whose content is `text`.
pub open spec fn text_response(
    status: StatusCode,
    text: Seq<char>,
    encoding: Option<SupportedEncoding>,
) -> ResponseView {
    ResponseView {
        status_code: status,
        headers: Seq::empty(),
        body: encode_utf8(text),
        encoding_type: encoding,
    }
}

/// A response whose content is the reason phrase of its status.
pub open spec fn status_response(
    status: StatusCode,
    encoding: Option<SupportedEncoding>,
) -> ResponseView {
    text_response(status, status.wire(), encoding)
}

/// The length that the first `Content-Length` header declares, where there is
/// one and its value, white space around it set aside, is a decimal numeral.
pub open spec fn declared_length(headers: Seq<HeaderView>) -> Option<nat> {
    match header_value(headers, SupprotedHeader::ContentLength) {
        Some(value) => decimal_value(spec_trim(value)),
        None => None,
    }
}

/// The bytes of a request's body that are written to a file: the body in
/// UTF-8, cut down to the declared length where one is declared and the body
/// is longer.
pub open spec fn written_body(request: RequestView) -> Seq<u8> {
    let bytes = encode_utf8(request.body);
    match declared_length(request.headers) {
        Some(n) => bytes.take(at_most(n, bytes.len()) as int),
        None => bytes,
    }
}

/// The file that a path under `/files/` names: the base directory with the
/// rest of the path appended as it stands.
pub open spec fn file_path(directory: Seq<char>, path: Seq<char>) -> Seq<char> {
    directory + path.skip(files_prefix().len() as int)
}

/// The action for a request. The rules are tried in this order, and the
/// first that applies decides:
/// `GET /` greets; `GET /echo/..` sends back the rest of the path;
/// `GET /user-agent` sends the trimmed `User-Agent` value, or 400 without
/// that header; `GET /files/..` reads a file; `POST /files/..` writes one;
/// anything else is 404.
pub open spec fn action_for(request: RequestView, directory: Seq<char>) -> ActionView {
    let encoding = negotiated_encoding(request.headers);
    let get = request.method == HttpMethod::Get;
    let post = request.method == HttpMethod::Post;
    if get && request.path == root_path() {
        ActionView::Respond(text_response(StatusCode::OK, greeting(), encoding))
    } else if get && matches_at(request.path, echo_prefix(), 0) {
        ActionView::Respond(
            text_response(StatusCode::OK, request.path.skip(echo_prefix().len() as int), encoding),
        )
    } else if get && request.path == user_agent_path() {
        match header_value(request.headers, SupprotedHeader::UserAgent) {
            Some(value) => ActionView::Respond(
                text_response(StatusCode::OK, spec_trim(value), encoding),
            ),
            None => ActionView::Respond(status_response(StatusCode::BadRequest, encoding)),
        }
    } else if get && matches_at(request.path, files_prefix(), 0) {
        ActionView::ReadFile { path: file_path(directory, request.path), encoding }
    } else if post && matches_at(request.path, files_prefix(), 0) {
        ActionView::WriteFile {
            path: file_path(directory, request.path),
            contents: written_body(request),
            encoding,
        }
    } else {
        ActionView::Respond(status_response(StatusCode::NotFound, encoding))
    }
}

/// The response after a file was read: 200 with the file's bytes as
/// `application/octet-stream`, or 404 where it could not be read.
pub open spec fn file_read(
    content: Option<Seq<u8>>,
    encoding: Option<SupportedEncoding>,
) -> ResponseView {
    match content {
        Some(bytes) => ResponseView {
            status_code: StatusCode::OK,
            headers: seq![
                HeaderView {
                    key: SupprotedHeader::ContentType,
                    value: ContentType::ApplicationOctetStream.wire(),
                },
            ],
            body: bytes,
            encoding_type: encoding,
        },
        None => status_response(StatusCode::NotFound, encoding),
    }
}

/// The response after a file was written: 201, or 500 where it could not be
/// written.
pub open spec fn file_written(written: bool, encoding: Option<SupportedEncoding>) -> ResponseView {
    if written {
        status_response(StatusCode::Created, encoding)
    } else {
        status_response(StatusCode::InternalServerError, encoding)
    }
}

/// The response to a message that is no request: 400 with the reason as its
/// content, never compressed.
pub open spec fn bad_request(error: ParseError) -> ResponseView {
    text_response(StatusCode::BadRequest, error.reason(), None)
}

/// The action for a message: that of the request it holds, or the refusal of
/// a message that holds none.
pub open spec fn action_for_message(text: Seq<char>, directory: Seq<char>) -> ActionView {
    match parse_request(text) {
        Ok(request) => action_for(request, directory),
        Err(error) => ActionView::Respond(bad_request(error)),
    }
}

/// A response without headers of its own whose content is `text`.
fn respond_text(status: StatusCode, text: &str, encoding: Option<SupportedEncoding>) -> (r:
    HttpResponse)
    ensures
        r@ == text_response(status, text@, encoding),
{
    let headers: Vec<Header> = Vec::new();
    proof {
        assert(header_views(headers@) =~= Seq::empty());
    }
    HttpResponse::new(status, headers, text.to_owned(), encoding)
}

/// The bytes of the request's body that a `POST` under `/files/` writes.
pub fn body_to_write(request: &HttpRequest) -> (r: Vec<u8>)
    ensures
        r@ == written_body(request@),
{
    let mut bytes = request.body.as_str().as_bytes_vec();
    match request.get_header_value(SupprotedHeader::ContentLength) {
        Some(value) => match parse_decimal_capped(trim(value), bytes.len()) {
            Some(n) => {
                bytes.truncate(n);
            },
            None => {},
        },
        None => {},
    }
    bytes
}

/// Chooses the action for a request.
pub fn route(request: &HttpRequest, directory: &str) -> (r: Action)
    ensures
        r@ == action_for(request@, directory@),
{
    let encoding = SupportedEncoding::negotiate(request.headers.as_slice());
    let get = request.method == HttpMethod::Get;
    let post = request.method == HttpMethod::Post;
    if get && str_eq(request.path, "/") {
        return Action::Respond(respond_text(StatusCode::OK, "Hello, World!", encoding));
    }
    if get {
        match strip_prefix(request.path, "/echo/") {
            Some(rest) => {
                return Action::Respond(respond_text(StatusCode::OK, rest, encoding));
            },
            None => {},
        }
    }
    if get && str_eq(request.path, "/user-agent") {
        return match request.get_header_value(SupprotedHeader::UserAgent) {
            Some(value) => Action::Respond(respond_text(StatusCode::OK, trim(value), encoding)),
            None => Action::Respond(
                respond_text(StatusCode::BadRequest, StatusCode::BadRequest.as_str(), encoding),
            ),
        };
    }
    if get || post {
        match strip_prefix(request.path, "/files/") {
            Some(rest) => {
                let mut path = directory.to_owned();
                path.append(rest);
                if get {
                    return Action::ReadFile { path, encoding };
                } else {
                    let contents = body_to_write(request);
                    return Action::WriteFile { path, contents, encoding };
                }
            },
            None => {},
        }
    }
    Action::Respond(respond_text(StatusCode::NotFound, StatusCode::NotFound.as_str(), encoding))
}

/// Builds the response after the file of a `ReadFile` action was read.
/// `content` is what the file holds, or `None` where it could not be read.
pub fn file_read_response(content: Option<Vec<u8>>, encoding: Option<SupportedEncoding>) -> (r:
    HttpResponse)
    ensures
        r@ == file_read(
            match content {
                Some(bytes) => Some(bytes@),
                None => None,
            },
            encoding,
        ),
{
    match content {
        Some(bytes) => {
            let mut headers: Vec<Header> = Vec::new();
            let header = Header::from_text(
                SupprotedHeader::ContentType,
                ContentType::ApplicationOctetStream.as_str(),
            );
            headers.push(header);
            proof {
                assert(header_views(headers@) =~= seq![header@]);
            }
            HttpResponse::from_bytes(StatusCode::OK, headers, bytes, encoding)
        },
        None => respond_text(StatusCode::NotFound, StatusCode::NotFound.as_str(), encoding),
    }
}

/// Builds the response after the file of a `WriteFile` action was written,
/// or could not be.
pub fn file_write_response(written: bool, encoding: Option<SupportedEncoding>) -> (r: HttpResponse)
    ensures
        r@ == file_written(written, encoding),
{
    if written {
        respond_text(StatusCode::Created, StatusCode::Created.as_str(), encoding)
    } else {
        respond_text(
            StatusCode::InternalServerError,
            StatusCode::InternalServerError.as_str(),
            encoding,
        )
    }
}

/// Builds the response to a message that is no request.
pub fn bad_request_response(error: ParseError) -> (r: HttpResponse)
    ensures
        r@ == bad_request(error),
{
    respond_text(StatusCode::BadRequest, error.to_string().as_str(), None)
}

/// Parses a message and chooses the action for it.
pub fn handle_request(http_request: &str, directory: &str) -> (r: Action)
    ensures
        r@ == action_for_message(http_request@, directory@),
{
    match HttpRequest::new(http_request) {
        Ok(request) => route(&request, directory),
        Err(error) => Action::Respond(bad_request_response(error)),
    }
}

} // verus!
