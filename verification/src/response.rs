//! The response builder: a typed response, and the bytes that go on the wire.
//!
//! A response is built once and serialized once. Serialization completes the
//! headers (a default media type, the content coding, the length of the body
//! as sent), then writes the status line, the headers, an empty line and the
//! body.

use vstd::prelude::*;
use vstd::string::*;
use vstd::utf8::encode_utf8;
use crate::compress::{compress, encoded, framed};
use crate::header::{
    find_header, has_header, header_views, lemma_header_value_present, Header, HeaderView,
};
use crate::numeral::{decimal, decimal_string};
use crate::request::crlf;
use crate::tokens::{ContentType, HttpVersion, StatusCode, SupportedEncoding, SupprotedHeader};

verus! {

/// What a response is. The body is the content before any coding is applied.
pub struct ResponseView {
    pub status_code: StatusCode,
    pub headers: Seq<HeaderView>,
    pub body: Seq<u8>,
    pub encoding_type: Option<SupportedEncoding>,
}

/// A response as a handler builds it: the status, the headers that the
/// handler chose, the content, and the coding negotiated for it.
#[derive(Debug)]
pub struct HttpResponse {
    pub status_code: StatusCode,
    pub headers: Vec<Header>,
    pub body: Vec<u8>,
    pub encoding_type: Option<SupportedEncoding>,
}

impl View for HttpResponse {
    type V = ResponseView;

    open spec fn view(&self) -> ResponseView {
        ResponseView {
            status_code: self.status_code,
            headers: header_views(self.headers@),
            body: self.body@,
            encoding_type: self.encoding_type,
        }
    }
}

/// The first line of a response: version, status number, reason phrase.
pub open spec fn status_line(status: StatusCode) -> Seq<char> {
    HttpVersion::Http1_1.wire() + " "@ + decimal(status.spec_code() as nat) + " "@ + status.wire()
}

/// A header as written: name, colon, space, value.
pub open spec fn header_text(header: HeaderView) -> Seq<char> {
    header.key.wire() + ": "@ + header.value
}

/// The headers as written, each followed by a line break.
pub open spec fn header_block(headers: Seq<HeaderView>) -> Seq<char>
    decreases headers.len(),
{
    if headers.len() == 0 {
        Seq::empty()
    } else {
        header_block(headers.drop_last()) + header_text(headers.last()) + crlf()
    }
}

/// The headers as written, with a line break between each two.
pub open spec fn joined_headers(headers: Seq<HeaderView>) -> Seq<char>
    decreases headers.len(),
{
    if headers.len() == 0 {
        Seq::empty()
    } else if headers.len() == 1 {
        header_text(headers[0])
    } else {
        joined_headers(headers.drop_last()) + crlf() + header_text(headers.last())
    }
}

/// The `Content-Length` header of a body of `len` bytes.
pub open spec fn content_length_header(len: nat) -> HeaderView {
    HeaderView { key: SupprotedHeader::ContentLength, value: decimal(len) }
}

/// The headers that are sent: those of the handler; then `Content-Type:
/// text/plain` where the handler set no media type; then `Content-Encoding`
/// where a coding is applied; and last `Content-Length`, for the `len` bytes
/// of the body as sent.
pub open spec fn wire_headers(
    headers: Seq<HeaderView>,
    encoding: Option<SupportedEncoding>,
    len: nat,
) -> Seq<HeaderView> {
    let typed = if has_header(headers, SupprotedHeader::ContentType) {
        headers
    } else {
        headers.push(
            HeaderView { key: SupprotedHeader::ContentType, value: ContentType::TextPlain.wire() },
        )
    };
    let coded = match encoding {
        Some(e) => typed.push(
            HeaderView { key: SupprotedHeader::ContentEncoding, value: e.wire() },
        ),
        None => typed,
    };
    coded.push(content_length_header(len))
}

/// The text that precedes the body: status line, headers, empty line.
pub open spec fn head(status: StatusCode, headers: Seq<HeaderView>) -> Seq<char> {
    status_line(status) + crlf() + header_block(headers) + crlf()
}

/// A message on the wire: the head in UTF-8, then the body as it is.
pub open spec fn message(status: StatusCode, headers: Seq<HeaderView>, body: Seq<u8>) -> Seq<u8> {
    encode_utf8(head(status, headers)) + body
}

/// The bytes of `response` on the wire, given the body as sent.
pub open spec fn response_bytes(response: ResponseView, wire_body: Seq<u8>) -> Seq<u8> {
    message(
        response.status_code,
        wire_headers(response.headers, response.encoding_type, wire_body.len()),
        wire_body,
    )
}

/// The response that replaces one whose body could not be compressed: status
/// 500 with its reason phrase as plain text.
pub open spec fn encoder_failure() -> ResponseView {
    ResponseView {
        status_code: StatusCode::InternalServerError,
        headers: Seq::empty(),
        body: encode_utf8(StatusCode::InternalServerError.wire()),
        encoding_type: None,
    }
}

/// The body of `response` as sent: the content itself where no coding is
/// set, else what the codec makes of the content, which is `None` where its
/// encoder fails.
pub open spec fn wire_body(response: ResponseView) -> Option<Seq<u8>> {
    match response.encoding_type {
        Some(e) => encoded(e, response.body),
        None => Some(response.body),
    }
}

/// The bytes of `response` on the wire: the response with its body as sent,
/// or the plain 500 response where the body could not be compressed.
pub open spec fn wire_bytes(response: ResponseView) -> Seq<u8> {
    match wire_body(response) {
        Some(body) => response_bytes(response, body),
        None => response_bytes(encoder_failure(), encoder_failure().body),
    }
}

/// The text that `to_string` gives: status line and the handler's headers.
pub open spec fn summary(response: ResponseView) -> Seq<char> {
    status_line(response.status_code) + crlf() + joined_headers(response.headers) + crlf()
}

/// The first line of a response.
fn status_line_text(status: StatusCode) -> (r: String)
    ensures
        r@ == status_line(status),
{
    let mut text = HttpVersion::Http1_1.to_string();
    text.append(" ");
    text.append(decimal_string(status.code() as usize).as_str());
    text.append(" ");
    text.append(status.as_str());
    text
}

/// Writes status line, headers and empty line, then the body.
fn emit(status: StatusCode, headers: &Vec<Header>, body: &Vec<u8>) -> (out: Vec<u8>)
    ensures
        out@ == message(status, header_views(headers@), body@),
{
    let mut text = status_line_text(status);
    text.append("\r\n");
    let ghost all = header_views(headers@);
    let ghost start = status_line(status) + crlf();
    proof {
        assert(all.take(0) =~= Seq::empty());
        assert(text@ =~= start + header_block(all.take(0)));
    }
    let mut k: usize = 0;
    while k < headers.len()
        invariant
            k <= headers.len(),
            all == header_views(headers@),
            text@ == start + header_block(all.take(k as int)),
        decreases headers.len() - k,
    {
        let ghost before = text@;
        let value: &String = &headers[k].value;
        text.append(headers[k].key.as_str());
        text.append(": ");
        text.append(value.as_str());
        text.append("\r\n");
        proof {
            assert(all.take(k + 1).drop_last() =~= all.take(k as int));
            assert(all.take(k + 1).last() == headers@[k as int]@);
            assert(text@ =~= before + (header_text(headers@[k as int]@) + crlf()));
            assert(text@ =~= start + header_block(all.take(k + 1)));
        }
        k += 1;
    }
    text.append("\r\n");
    proof {
        assert(all.take(k as int) =~= all);
        assert(text@ =~= head(status, all));
    }
    let mut out = text.as_str().as_bytes_vec();
    out.extend_from_slice(body.as_slice());
    out
}

/// Completes the headers for the body as sent, and writes the message.
fn send(
    status: StatusCode,
    headers: Vec<Header>,
    encoding: Option<SupportedEncoding>,
    wire_body: Vec<u8>,
) -> (out: Vec<u8>)
    ensures
        out@ == message(
            status,
            wire_headers(header_views(headers@), encoding, wire_body@.len()),
            wire_body@,
        ),
{
    let mut headers = headers;
    proof {
        lemma_header_value_present(header_views(headers@), SupprotedHeader::ContentType);
    }
    if find_header(headers.as_slice(), SupprotedHeader::ContentType).is_none() {
        let header = Header::from_text(
            SupprotedHeader::ContentType,
            ContentType::TextPlain.as_str(),
        );
        let ghost before = header_views(headers@);
        headers.push(header);
        proof {
            assert(header_views(headers@) =~= before.push(header@));
        }
    }
    match encoding {
        Some(e) => {
            let header = Header::from_text(SupprotedHeader::ContentEncoding, e.as_str());
            let ghost before = header_views(headers@);
            headers.push(header);
            proof {
                assert(header_views(headers@) =~= before.push(header@));
            }
        },
        None => {},
    }
    let header = HttpResponse::create_content_length_header(wire_body.as_slice());
    let ghost before = header_views(headers@);
    headers.push(header);
    proof {
        assert(header_views(headers@) =~= before.push(header@));
    }
    emit(status, &headers, &wire_body)
}

impl HttpResponse {
    /// A response whose content is the UTF-8 form of `body`.
    pub fn new(
        status_code: StatusCode,
        headers: Vec<Header>,
        body: String,
        encoding_type: Option<SupportedEncoding>,
    ) -> (r: HttpResponse)
        ensures
            r.status_code == status_code,
            r.headers == headers,
            r.body@ == encode_utf8(body@),
            r.encoding_type == encoding_type,
    {
        HttpResponse { status_code, headers, body: body.as_str().as_bytes_vec(), encoding_type }
    }

    /// A response whose content is `body`, byte for byte.
    pub fn from_bytes(
        status_code: StatusCode,
        headers: Vec<Header>,
        body: Vec<u8>,
        encoding_type: Option<SupportedEncoding>,
    ) -> (r: HttpResponse)
        ensures
            r == (HttpResponse { status_code, headers, body, encoding_type }),
    {
        HttpResponse { status_code, headers, body, encoding_type }
    }

    /// The content in the coding `encoding_type`: the stream that the codec
    /// makes of it, or `None` where its encoder reports an error.
    pub fn compress_string(&self, encoding_type: SupportedEncoding) -> (r: Option<Vec<u8>>)
        ensures
            match r {
                Some(stream) => encoded(encoding_type, self@.body) == Some(stream@),
                None => encoded(encoding_type, self@.body) is None,
            },
            r matches Some(stream) ==> framed(encoding_type, stream@),
    {
        compress(self.body.as_slice(), encoding_type)
    }

    /// The `Content-Length` header for `body`: its length in bytes, in
    /// decimal.
    pub fn create_content_length_header(body: &[u8]) -> (r: Header)
        ensures
            r@ == content_length_header(body@.len()),
    {
        Header::from_text(SupprotedHeader::ContentLength, decimal_string(body.len()).as_str())
    }

    /// The bytes on the wire, given the body as sent: `Some` with the content
    /// in the negotiated coding (the content itself where none is applied),
    /// or `None` where the encoder failed. In the second case the bytes are
    /// those of a plain 500 response.
    pub fn serialize(self, wire_body: Option<Vec<u8>>) -> (out: Vec<u8>)
        ensures
            match wire_body {
                Some(body) => out@ == response_bytes(self@, body@),
                None => out@ == response_bytes(encoder_failure(), encoder_failure().body),
            },
    {
        match wire_body {
            Some(wire_body) => send(self.status_code, self.headers, self.encoding_type, wire_body),
            None => {
                let status = StatusCode::InternalServerError;
                let headers: Vec<Header> = Vec::new();
                proof {
                    assert(header_views(headers@) =~= Seq::empty());
                }
                send(status, headers, None, status.as_str().as_bytes_vec())
            },
        }
    }

    /// The bytes of this response on the wire. The content is sent as it is
    /// where no coding was negotiated, and compressed otherwise; where the
    /// encoder fails, a plain 500 response is sent in its place.
    pub fn body_to_bytes(self) -> (out: Vec<u8>)
        ensures
            out@ == wire_bytes(self@),
            self.encoding_type matches Some(e) ==> (wire_body(self@) matches Some(stream)
                ==> framed(e, stream)),
    {
        let wire_body = match self.encoding_type {
            Some(e) => self.compress_string(e),
            None => Some(self.body.clone()),
        };
        self.serialize(wire_body)
    }

    /// The status line and the handler's headers, as text.
    pub fn to_string(&self) -> (r: String)
        ensures
            r@ == summary(self@),
    {
        let mut text = status_line_text(self.status_code);
        text.append("\r\n");
        let ghost all = header_views(self.headers@);
        let ghost start = status_line(self.status_code) + crlf();
        proof {
            assert(all.take(0) =~= Seq::empty());
            assert(text@ =~= start + joined_headers(all.take(0)));
        }
        let mut k: usize = 0;
        while k < self.headers.len()
            invariant
                k <= self.headers.len(),
                all == header_views(self.headers@),
                text@ == start + joined_headers(all.take(k as int)),
            decreases self.headers.len() - k,
        {
            let ghost before = text@;
            let value: &String = &self.headers[k].value;
            if k > 0 {
                text.append("\r\n");
            }
            text.append(self.headers[k].key.as_str());
            text.append(": ");
            text.append(value.as_str());
            proof {
                assert(all.take(k + 1).drop_last() =~= all.take(k as int));
                assert(all.take(k + 1).last() == self.headers@[k as int]@);
                if k > 0 {
                    assert(text@ =~= before + crlf() + header_text(self.headers@[k as int]@));
                } else {
                    assert(text@ =~= before + header_text(self.headers@[k as int]@));
                    assert(all.take(1)[0] == self.headers@[0]@);
                }
                assert(text@ =~= start + joined_headers(all.take(k + 1)));
            }
            k += 1;
        }
        text.append("\r\n");
        proof {
            assert(all.take(k as int) =~= all);
            assert(text@ =~= summary(self@));
        }
        text
    }
}

} // verus!
