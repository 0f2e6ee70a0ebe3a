//! Where the head of a response ends.
//!
//! A reader finds the body of a message after the first empty line. This
//! module proves that the head which the response builder writes holds one
//! empty line only, its last, as long as no header value of the handler
//! holds a line break of its own; and that the routes of this server set no
//! such values, and no `Content-Encoding` or `Content-Length` of their own.

use vstd::prelude::*;
use vstd::utf8::{encode_utf8, is_ascii_chars, is_ascii_chars_encode_utf8};
use crate::header::{has_header, HeaderView};
use crate::numeral::{decimal, is_digit, lemma_decimal_digits};
use crate::request::{crlf, parse_request, ParseError, RequestView};
use crate::response::{
    content_length_header, encoder_failure, head, header_block, header_text, response_bytes,
    status_line, wire_body, wire_bytes, wire_headers, ResponseView,
};
use crate::router::{
    action_for, action_for_message, bad_request, file_read, file_written, ActionView,
};
use crate::text::{find, is_first_match, lemma_find, lemma_first_match_unique, matches_at};
use crate::tokens::{ContentType, HttpVersion, StatusCode, SupportedEncoding, SupprotedHeader};

verus! {

/// An empty line as it stands in a message: the line break that ends the
/// line before it, and its own.
pub open spec fn blank_line() -> Seq<char> {
    crlf() + crlf()
}

/// Whether `s` holds neither a carriage return nor a line feed.
pub open spec fn is_one_line(s: Seq<char>) -> bool {
    forall|i: int| 0 <= i < s.len() ==> s[i] != '\r' && s[i] != '\n'
}

/// Whether `s` holds no empty line.
pub open spec fn has_no_blank_line(s: Seq<char>) -> bool {
    forall|j: int| !matches_at(s, blank_line(), j)
}

/// Whether the values of all headers are single lines.
pub open spec fn values_are_lines(headers: Seq<HeaderView>) -> bool {
    forall|i: int| 0 <= i < headers.len() ==> is_one_line(#[trigger] headers[i].value)
}

/// Headers as a handler may set them: every value is a single line, and none
/// is a `Content-Encoding` or a `Content-Length`, which the response builder
/// adds itself.
pub open spec fn handler_headers(headers: Seq<HeaderView>) -> bool {
    &&& values_are_lines(headers)
    &&& !has_header(headers, SupprotedHeader::ContentEncoding)
    &&& !has_header(headers, SupprotedHeader::ContentLength)
}

/// The four characters of an empty line.
proof fn lemma_blank_line()
    ensures
        crlf().len() == 2,
        crlf()[0] == '\r',
        crlf()[1] == '\n',
        blank_line().len() == 4,
        blank_line()[0] == '\r',
        blank_line()[1] == '\n',
        blank_line()[2] == '\r',
        blank_line()[3] == '\n',
{
    reveal_strlit("\r\n");
}

/// Two single lines joined are a single line.
proof fn lemma_one_line_join(a: Seq<char>, b: Seq<char>)
    requires
        is_one_line(a),
        is_one_line(b),
    ensures
        is_one_line(a + b),
{
}

/// The wire form of every method, header name, media type, coding and status
/// is a single line and not empty.
pub proof fn lemma_tokens_are_lines()
    ensures
        forall|key: SupprotedHeader| is_one_line(#[trigger] key.wire()) && key.wire().len() > 0,
        forall|status: StatusCode|
            is_one_line(#[trigger] status.wire()) && status.wire().len() > 0,
        forall|kind: ContentType| is_one_line(#[trigger] kind.wire()) && kind.wire().len() > 0,
        forall|coding: SupportedEncoding|
            is_one_line(#[trigger] coding.wire()) && coding.wire().len() > 0,
        is_one_line(HttpVersion::Http1_1.wire()) && HttpVersion::Http1_1.wire().len() > 0,
{
    reveal_strlit("Content-Type");
    reveal_strlit("Content-Length");
    reveal_strlit("Content-Encoding");
    reveal_strlit("User-Agent");
    reveal_strlit("Accept-Encoding");
    reveal_strlit("OK");
    reveal_strlit("Created");
    reveal_strlit("Bad Request");
    reveal_strlit("Not Found");
    reveal_strlit("Internal Server Error");
    reveal_strlit("text/plain");
    reveal_strlit("application/json");
    reveal_strlit("application/octet-stream");
    reveal_strlit("text/html");
    reveal_strlit("gzip");
    reveal_strlit("deflate");
    reveal_strlit("HTTP/1.1");
}

/// A decimal numeral is a single line.
pub proof fn lemma_decimal_is_line(n: nat)
    ensures
        is_one_line(decimal(n)),
{
    lemma_decimal_digits(n);
    assert forall|i: int| 0 <= i < decimal(n).len() implies decimal(n)[i] != '\r' && decimal(n)[i]
        != '\n' by {
        assert(is_digit(decimal(n)[i]));
    }
}

/// The status line is a single line and not empty.
pub proof fn lemma_status_line_is_line(status: StatusCode)
    ensures
        is_one_line(status_line(status)),
        status_line(status).len() > 0,
{
    reveal_strlit(" ");
    lemma_tokens_are_lines();
    lemma_decimal_is_line(status.spec_code() as nat);
    let a = HttpVersion::Http1_1.wire();
    let b = a + " "@;
    let c = b + decimal(status.spec_code() as nat);
    let d = c + " "@;
    lemma_one_line_join(a, " "@);
    lemma_one_line_join(b, decimal(status.spec_code() as nat));
    lemma_one_line_join(c, " "@);
    lemma_one_line_join(d, status.wire());
}

/// A header whose value is a single line is written as a single line, and
/// not as an empty one.
pub proof fn lemma_header_text_is_line(header: HeaderView)
    requires
        is_one_line(header.value),
    ensures
        is_one_line(header_text(header)),
        header_text(header).len() > 0,
{
    reveal_strlit(": ");
    lemma_tokens_are_lines();
    lemma_one_line_join(header.key.wire(), ": "@);
    lemma_one_line_join(header.key.wire() + ": "@, header.value);
}

/// A line that is not empty, added with its line break to a text without an
/// empty line, leaves the text without one.
pub proof fn lemma_append_line(s: Seq<char>, line: Seq<char>)
    requires
        has_no_blank_line(s),
        is_one_line(line),
        line.len() > 0,
    ensures
        has_no_blank_line(s + line + crlf()),
{
    lemma_blank_line();
    let whole = s + line + crlf();
    let a = s.len() as int;
    let b = a + line.len();
    assert forall|j: int| !matches_at(whole, blank_line(), j) by {
        if matches_at(whole, blank_line(), j) {
            let found = whole.subrange(j, j + 4);
            assert(found == blank_line());
            assert(found[0] == whole[j] && found[1] == whole[j + 1] && found[2] == whole[j + 2]
                && found[3] == whole[j + 3]);
            if j + 4 <= a {
                assert(s.subrange(j, j + 4) =~= found);
                assert(matches_at(s, blank_line(), j));
            } else if j >= b {
            } else {
                // One of the four characters lies in `line`.
                let k = if j >= a {
                    j
                } else {
                    a
                };
                assert(j <= k < j + 4 && a <= k < b);
                assert(whole[k] == line[k - a]);
            }
        }
    }
}

/// The status line and the headers, each with its line break, hold no empty
/// line where every header value is a single line.
pub proof fn lemma_lines_hold_no_blank_line(status: StatusCode, headers: Seq<HeaderView>)
    requires
        values_are_lines(headers),
    ensures
        has_no_blank_line(status_line(status) + crlf() + header_block(headers)),
        (status_line(status) + crlf() + header_block(headers)).len() >= 2,
    decreases headers.len(),
{
    lemma_blank_line();
    if headers.len() == 0 {
        lemma_status_line_is_line(status);
        let empty = Seq::<char>::empty();
        assert(has_no_blank_line(empty));
        lemma_append_line(empty, status_line(status));
        assert(empty + status_line(status) + crlf() =~= status_line(status) + crlf()
            + header_block(headers));
    } else {
        let before = headers.drop_last();
        let last = headers.last();
        assert(values_are_lines(before)) by {
            assert forall|i: int| 0 <= i < before.len() implies is_one_line(
                #[trigger] before[i].value,
            ) by {
                assert(before[i] == headers[i]);
            }
        }
        lemma_lines_hold_no_blank_line(status, before);
        lemma_header_text_is_line(last);
        let s = status_line(status) + crlf() + header_block(before);
        lemma_append_line(s, header_text(last));
        assert(s + header_text(last) + crlf() =~= status_line(status) + crlf() + header_block(
            headers,
        ));
    }
}

/// The lines of a head end with a line break.
proof fn lemma_lines_end_with_break(status: StatusCode, headers: Seq<HeaderView>)
    ensures
        ({
            let s = status_line(status) + crlf() + header_block(headers);
            s.len() >= 2 && s.subrange(s.len() - 2, s.len() as int) == crlf()
        }),
{
    lemma_blank_line();
    let s = status_line(status) + crlf() + header_block(headers);
    if headers.len() == 0 {
        assert(s.subrange(s.len() - 2, s.len() as int) =~= crlf());
    } else {
        let t = header_block(headers.drop_last()) + header_text(headers.last());
        assert(s =~= status_line(status) + crlf() + t + crlf());
        assert(s.subrange(s.len() - 2, s.len() as int) =~= crlf());
    }
}

/// The head of a message whose header values are single lines holds one
/// empty line only, and that one ends it: what follows the first empty line
/// of the message is its body.
pub proof fn theorem_head_ends_at_first_blank_line(status: StatusCode, headers: Seq<HeaderView>)
    requires
        values_are_lines(headers),
    ensures
        head(status, headers).len() >= 4,
        find(head(status, headers), blank_line()) == Some(head(status, headers).len() - 4),
{
    lemma_blank_line();
    let s = status_line(status) + crlf() + header_block(headers);
    let whole = head(status, headers);
    let n = s.len() as int;
    lemma_lines_hold_no_blank_line(status, headers);
    lemma_lines_end_with_break(status, headers);
    assert(whole == s + crlf());
    assert(s.subrange(n - 2, n)[0] == s[n - 2] && s.subrange(n - 2, n)[1] == s[n - 1]);
    assert(whole.subrange(n - 2, n + 2) =~= blank_line());
    assert forall|j: int| 0 <= j < n - 2 implies !matches_at(whole, blank_line(), j) by {
        if matches_at(whole, blank_line(), j) {
            let found = whole.subrange(j, j + 4);
            assert(found[3] == whole[j + 3]);
            if j + 4 <= n {
                assert(s.subrange(j, j + 4) =~= found);
                assert(matches_at(s, blank_line(), j));
            } else {
                assert(whole[j + 3] == crlf()[0]);
            }
        }
    }
    assert(is_first_match(whole, blank_line(), n - 2));
    lemma_first_match_unique(whole, blank_line(), n - 2);
}

/// The headers that go on the wire for handler headers: every value is a
/// single line, `Content-Length` stands last and nowhere else, and
/// `Content-Encoding` stands just before it where a coding is applied, and
/// nowhere else.
pub proof fn theorem_wire_headers(
    headers: Seq<HeaderView>,
    encoding: Option<SupportedEncoding>,
    len: nat,
)
    requires
        handler_headers(headers),
    ensures
        ({
            let sent = wire_headers(headers, encoding, len);
            let last = sent.len() - 1;
            &&& values_are_lines(sent)
            &&& sent[last] == content_length_header(len)
            &&& forall|i: int|
                0 <= i < last ==> (#[trigger] sent[i]).key != SupprotedHeader::ContentLength
            &&& forall|i: int|
                0 <= i < sent.len() ==> ((#[trigger] sent[i]).key
                    == SupprotedHeader::ContentEncoding <==> encoding is Some && i == last - 1)
            &&& encoding matches Some(e) ==> sent[last - 1].value == e.wire()
        }),
{
    lemma_tokens_are_lines();
    lemma_decimal_is_line(len);
    let sent = wire_headers(headers, encoding, len);
    let typed = if has_header(headers, SupprotedHeader::ContentType) {
        headers
    } else {
        headers.push(
            HeaderView { key: SupprotedHeader::ContentType, value: ContentType::TextPlain.wire() },
        )
    };
    assert forall|i: int| 0 <= i < sent.len() implies is_one_line(#[trigger] sent[i].value) by {
        if i < headers.len() {
            assert(sent[i] == headers[i]);
        }
    }
    assert forall|i: int| 0 <= i < typed.len() implies (#[trigger] typed[i]).key
        != SupprotedHeader::ContentLength && typed[i].key != SupprotedHeader::ContentEncoding by {
        if i < headers.len() {
            assert(typed[i] == headers[i]);
        }
    }
    assert forall|i: int| 0 <= i < sent.len() - 1 implies (#[trigger] sent[i]).key
        != SupprotedHeader::ContentLength by {
        if i < typed.len() {
            assert(sent[i] == typed[i]);
        }
    }
    assert forall|i: int| 0 <= i < sent.len() implies ((#[trigger] sent[i]).key
        == SupprotedHeader::ContentEncoding <==> encoding is Some && i == sent.len() - 2) by {
        if i < typed.len() {
            assert(sent[i] == typed[i]);
        }
    }
}

/// Headers as the routes of this server set them: none, or the media type of
/// a file.
proof fn lemma_route_headers()
    ensures
        handler_headers(Seq::<HeaderView>::empty()),
        values_are_ascii(Seq::<HeaderView>::empty()),
        handler_headers(
            seq![
                HeaderView {
                    key: SupprotedHeader::ContentType,
                    value: ContentType::ApplicationOctetStream.wire(),
                },
            ],
        ),
        values_are_ascii(
            seq![
                HeaderView {
                    key: SupprotedHeader::ContentType,
                    value: ContentType::ApplicationOctetStream.wire(),
                },
            ],
        ),
{
    lemma_tokens_are_lines();
    lemma_tokens_are_ascii();
    let typed = seq![
        HeaderView {
            key: SupprotedHeader::ContentType,
            value: ContentType::ApplicationOctetStream.wire(),
        },
    ];
    assert(typed[0].value == ContentType::ApplicationOctetStream.wire());
}

/// A request that is answered at once is answered with headers as a handler
/// may set them, in ASCII.
pub proof fn theorem_route_headers(request: RequestView, directory: Seq<char>)
    ensures
        action_for(request, directory) matches ActionView::Respond(response) ==> handler_headers(
            response.headers,
        ) && values_are_ascii(response.headers),
{
    lemma_route_headers();
}

/// The responses that follow a file access, the refusal of a message that is
/// no request, and the response that stands in where the encoder fails all
/// have headers as a handler may set them, in ASCII.
pub proof fn theorem_other_headers(
    error: ParseError,
    content: Option<Seq<u8>>,
    written: bool,
    encoding: Option<SupportedEncoding>,
)
    ensures
        handler_headers(bad_request(error).headers),
        handler_headers(file_read(content, encoding).headers),
        handler_headers(file_written(written, encoding).headers),
        handler_headers(encoder_failure().headers),
        values_are_ascii(bad_request(error).headers),
        values_are_ascii(file_read(content, encoding).headers),
        values_are_ascii(file_written(written, encoding).headers),
        values_are_ascii(encoder_failure().headers),
{
    lemma_route_headers();
}

/// Every message that is answered at once is answered with headers as a
/// handler may set them, in ASCII.
pub proof fn theorem_message_headers(text: Seq<char>, directory: Seq<char>)
    ensures
        action_for_message(text, directory) matches ActionView::Respond(response)
            ==> handler_headers(response.headers) && values_are_ascii(response.headers),
{
    match parse_request(text) {
        Ok(request) => theorem_route_headers(request, directory),
        Err(error) => theorem_other_headers(error, None, true, None),
    }
}

/// For a response with headers as a handler may set them, and the body
/// `wire_body` as sent: the head on the wire holds one empty line only, its
/// last, so that the body is what follows the first empty line; and the head
/// holds `Content-Length` once, as its last header.
pub proof fn theorem_body_follows_first_blank_line(response: ResponseView, wire_body: Seq<u8>)
    requires
        handler_headers(response.headers),
    ensures
        ({
            let sent = wire_headers(response.headers, response.encoding_type, wire_body.len());
            let text = head(response.status_code, sent);
            &&& find(text, blank_line()) == Some(text.len() - 4)
            &&& sent.last() == content_length_header(wire_body.len())
            &&& forall|i: int|
                0 <= i < sent.len() - 1 ==> (#[trigger] sent[i]).key
                    != SupprotedHeader::ContentLength
        }),
{
    let sent = wire_headers(response.headers, response.encoding_type, wire_body.len());
    theorem_wire_headers(response.headers, response.encoding_type, wire_body.len());
    theorem_head_ends_at_first_blank_line(response.status_code, sent);
}

/// The bytes of an empty line.
pub open spec fn blank_line_bytes() -> Seq<u8> {
    seq![0x0Du8, 0x0Au8, 0x0Du8, 0x0Au8]
}

/// The bytes of an empty line stand in `message` at position `i`.
pub open spec fn blank_line_at(message: Seq<u8>, i: int) -> bool {
    0 <= i && i + 4 <= message.len() && message.subrange(i, i + 4) == blank_line_bytes()
}

/// `n` is the position in `message` just after its first empty line.
pub open spec fn is_body_start(message: Seq<u8>, n: int) -> bool {
    &&& blank_line_at(message, n - 4)
    &&& forall|j: int| 0 <= j < n - 4 ==> !blank_line_at(message, j)
}

/// Whether the values of all headers are ASCII.
pub open spec fn values_are_ascii(headers: Seq<HeaderView>) -> bool {
    forall|i: int| 0 <= i < headers.len() ==> is_ascii_chars(#[trigger] headers[i].value)
}

/// Two ASCII texts joined are ASCII.
proof fn lemma_ascii_join(a: Seq<char>, b: Seq<char>)
    requires
        is_ascii_chars(a),
        is_ascii_chars(b),
    ensures
        is_ascii_chars(a + b),
{
}

/// The wire forms of the vocabulary and the separators of a message are
/// ASCII.
proof fn lemma_tokens_are_ascii()
    ensures
        forall|key: SupprotedHeader| is_ascii_chars(#[trigger] key.wire()),
        forall|status: StatusCode| is_ascii_chars(#[trigger] status.wire()),
        forall|kind: ContentType| is_ascii_chars(#[trigger] kind.wire()),
        forall|coding: SupportedEncoding| is_ascii_chars(#[trigger] coding.wire()),
        is_ascii_chars(HttpVersion::Http1_1.wire()),
        is_ascii_chars(crlf()),
        is_ascii_chars(" "@),
        is_ascii_chars(": "@),
{
    reveal_strlit("Content-Type");
    reveal_strlit("Content-Length");
    reveal_strlit("Content-Encoding");
    reveal_strlit("User-Agent");
    reveal_strlit("Accept-Encoding");
    reveal_strlit("OK");
    reveal_strlit("Created");
    reveal_strlit("Bad Request");
    reveal_strlit("Not Found");
    reveal_strlit("Internal Server Error");
    reveal_strlit("text/plain");
    reveal_strlit("application/json");
    reveal_strlit("application/octet-stream");
    reveal_strlit("text/html");
    reveal_strlit("gzip");
    reveal_strlit("deflate");
    reveal_strlit("HTTP/1.1");
    reveal_strlit("\r\n");
    reveal_strlit(" ");
    reveal_strlit(": ");
}

/// A decimal numeral is ASCII.
proof fn lemma_decimal_is_ascii(n: nat)
    ensures
        is_ascii_chars(decimal(n)),
    decreases n,
{
    if n >= 10 {
        lemma_decimal_is_ascii(n / 10);
    }
}

/// The headers as written are ASCII where their values are.
proof fn lemma_header_block_is_ascii(headers: Seq<HeaderView>)
    requires
        values_are_ascii(headers),
    ensures
        is_ascii_chars(header_block(headers)),
    decreases headers.len(),
{
    lemma_tokens_are_ascii();
    if headers.len() > 0 {
        let before = headers.drop_last();
        let last = headers.last();
        assert(values_are_ascii(before)) by {
            assert forall|i: int| 0 <= i < before.len() implies is_ascii_chars(
                #[trigger] before[i].value,
            ) by {
                assert(before[i] == headers[i]);
            }
        }
        lemma_header_block_is_ascii(before);
        lemma_ascii_join(last.key.wire(), ": "@);
        lemma_ascii_join(last.key.wire() + ": "@, last.value);
        lemma_ascii_join(header_block(before), header_text(last));
        lemma_ascii_join(header_block(before) + header_text(last), crlf());
    }
}

/// The head of a message is ASCII where the values of its headers are.
pub proof fn lemma_head_is_ascii(status: StatusCode, headers: Seq<HeaderView>)
    requires
        values_are_ascii(headers),
    ensures
        is_ascii_chars(head(status, headers)),
{
    lemma_tokens_are_ascii();
    lemma_decimal_is_ascii(status.spec_code() as nat);
    lemma_header_block_is_ascii(headers);
    let a = HttpVersion::Http1_1.wire();
    let b = a + " "@;
    let c = b + decimal(status.spec_code() as nat);
    let d = c + " "@;
    lemma_ascii_join(a, " "@);
    lemma_ascii_join(b, decimal(status.spec_code() as nat));
    lemma_ascii_join(c, " "@);
    lemma_ascii_join(d, status.wire());
    lemma_ascii_join(status_line(status), crlf());
    lemma_ascii_join(status_line(status) + crlf(), header_block(headers));
    lemma_ascii_join(status_line(status) + crlf() + header_block(headers), crlf());
}

/// The headers that go on the wire are ASCII where those of the handler are.
proof fn lemma_wire_headers_are_ascii(
    headers: Seq<HeaderView>,
    encoding: Option<SupportedEncoding>,
    len: nat,
)
    requires
        values_are_ascii(headers),
    ensures
        values_are_ascii(wire_headers(headers, encoding, len)),
{
    lemma_tokens_are_ascii();
    lemma_decimal_is_ascii(len);
    let sent = wire_headers(headers, encoding, len);
    assert forall|i: int| 0 <= i < sent.len() implies is_ascii_chars(#[trigger] sent[i].value) by {
        if i < headers.len() {
            assert(sent[i] == headers[i]);
        }
    }
}

/// For a response with headers as a handler may set them and ASCII values,
/// the bytes on the wire are the head, whose last four bytes are the first
/// empty line of the whole message, and then the body as sent: a reader that
/// cuts the message at its first empty line finds exactly that body, and its
/// length is what the last header, `Content-Length`, declares.
pub proof fn theorem_body_follows_first_blank_line_bytes(
    response: ResponseView,
    wire_body: Seq<u8>,
)
    requires
        handler_headers(response.headers),
        values_are_ascii(response.headers),
    ensures
        ({
            let message = response_bytes(response, wire_body);
            let sent = wire_headers(response.headers, response.encoding_type, wire_body.len());
            let n = head(response.status_code, sent).len() as int;
            &&& is_body_start(message, n)
            &&& message.skip(n) == wire_body
            &&& sent.last() == content_length_header(wire_body.len())
        }),
{
    let message = response_bytes(response, wire_body);
    let sent = wire_headers(response.headers, response.encoding_type, wire_body.len());
    let text = head(response.status_code, sent);
    let bytes = encode_utf8(text);
    let n = text.len() as int;
    theorem_body_follows_first_blank_line(response, wire_body);
    lemma_wire_headers_are_ascii(response.headers, response.encoding_type, wire_body.len());
    lemma_head_is_ascii(response.status_code, sent);
    is_ascii_chars_encode_utf8(text);
    lemma_blank_line();
    lemma_find(text, blank_line());
    assert(message == bytes + wire_body);
    assert(message.skip(n) =~= wire_body);
    assert forall|j: int| 0 <= j <= n - 4 implies blank_line_at(message, j) == matches_at(
        text,
        blank_line(),
        j,
    ) by {
        let found = message.subrange(j, j + 4);
        let chars = text.subrange(j, j + 4);
        assert forall|k: int| 0 <= k < 4 implies found[k] == chars[k] as u8 by {
            assert(found[k] == message[j + k]);
            assert(message[j + k] == bytes[j + k]);
            assert(chars[k] == text[j + k]);
        }
        if blank_line_at(message, j) {
            assert(found == blank_line_bytes());
            assert(chars[0] == '\r' && chars[1] == '\n' && chars[2] == '\r' && chars[3]
                == '\n') by {
                assert(found[0] == 0x0D && found[1] == 0x0A && found[2] == 0x0D && found[3]
                    == 0x0A);
                assert('\0' <= text[j] <= '\u{7f}' && '\0' <= text[j + 1] <= '\u{7f}' && '\0'
                    <= text[j + 2] <= '\u{7f}' && '\0' <= text[j + 3] <= '\u{7f}');
            }
            assert(chars =~= blank_line());
        }
        if matches_at(text, blank_line(), j) {
            assert(chars == blank_line());
            assert(found =~= blank_line_bytes());
        }
    }
}

/// What it means that `response` goes out well framed, whether its body is
/// sent as it is, compressed, or replaced by the 500 response where the
/// encoder fails: the first empty line of the message ends its head, what
/// follows is the body as sent, and `Content-Length`, the last header and
/// the only one of that name, declares the length of just that body.
pub open spec fn goes_out_framed(response: ResponseView) -> bool {
    let shown = if wire_body(response) is Some {
        response
    } else {
        encoder_failure()
    };
    let body = match wire_body(response) {
        Some(body) => body,
        None => encoder_failure().body,
    };
    let sent = wire_headers(shown.headers, shown.encoding_type, body.len());
    let n = head(shown.status_code, sent).len() as int;
    &&& is_body_start(wire_bytes(response), n)
    &&& wire_bytes(response).skip(n) == body
    &&& sent.last() == content_length_header(body.len())
    &&& forall|i: int|
        0 <= i < sent.len() - 1 ==> (#[trigger] sent[i]).key != SupprotedHeader::ContentLength
}

/// A response with headers as a handler may set them, in ASCII, goes out
/// well framed.
pub proof fn theorem_wire_framing(response: ResponseView)
    requires
        handler_headers(response.headers),
        values_are_ascii(response.headers),
    ensures
        goes_out_framed(response),
{
    match wire_body(response) {
        Some(body) => {
            theorem_body_follows_first_blank_line_bytes(response, body);
            theorem_body_follows_first_blank_line(response, body);
        },
        None => {
            let failure = encoder_failure();
            assert(handler_headers(failure.headers));
            assert(values_are_ascii(failure.headers));
            theorem_body_follows_first_blank_line_bytes(failure, failure.body);
            theorem_body_follows_first_blank_line(failure, failure.body);
        },
    }
}

/// Every response of this server goes out well framed, on every route and
/// with every coding: the answer to a message that is answered at once, and
/// the answers that follow the reading and the writing of a file.
pub proof fn theorem_server_framing(
    text: Seq<char>,
    directory: Seq<char>,
    content: Option<Seq<u8>>,
    written: bool,
    encoding: Option<SupportedEncoding>,
)
    ensures
        action_for_message(text, directory) matches ActionView::Respond(response)
            ==> goes_out_framed(response),
        goes_out_framed(file_read(content, encoding)),
        goes_out_framed(file_written(written, encoding)),
{
    theorem_message_headers(text, directory);
    theorem_other_headers(ParseError::MissingLineBreak, content, written, encoding);
    match action_for_message(text, directory) {
        ActionView::Respond(response) => theorem_wire_framing(response),
        _ => {},
    }
    theorem_wire_framing(file_read(content, encoding));
    theorem_wire_framing(file_written(written, encoding));
}

} // verus!
