//! What holds of the server as a whole, proved from the definitions of the
//! other modules.

use vstd::prelude::*;
use vstd::utf8::encode_utf8;
use crate::compress::{encoded, gzip_framed, gzip_stream};
use crate::encoding::{comma, encoding_named, encodings_in, negotiated_encoding};
use crate::framing::{theorem_route_headers, theorem_wire_headers};
use crate::header::{header_value, HeaderView};
use crate::numeral::{decimal, decimal_value, lemma_decimal_value_of_decimal};
use crate::request::{crlf, parse_request, RequestView};
use crate::response::{
    content_length_header, encoder_failure, head, header_block, header_text, response_bytes,
    status_line, wire_body, wire_bytes, wire_headers, ResponseView,
};
use crate::router::{
    action_for, action_for_message, echo_prefix, files_prefix, greeting, root_path,
    text_response, user_agent_path, written_body, ActionView,
};
use crate::text::{
    find, is_first_match, lemma_find, lemma_first_match_unique, matches_at, spec_split,
    spec_split_once, spec_trim, words,
};
use crate::tokens::{HttpMethod, StatusCode, SupportedEncoding, SupprotedHeader};

verus! {

/// Whether an `Accept-Encoding` value lists gzip: one of its items between
/// commas, white space around it set aside, is `gzip`.
pub open spec fn lists_gzip(value: Seq<char>) -> bool {
    let items = spec_split(spec_trim(value), comma());
    exists|i: int| 0 <= i < items.len() && spec_trim(#[trigger] items[i]) == "gzip"@
}

/// An action with the negotiated coding set aside.
pub open spec fn uncoded(action: ActionView) -> ActionView {
    match action {
        ActionView::Respond(response) => ActionView::Respond(
            ResponseView { encoding_type: None, ..response },
        ),
        ActionView::ReadFile { path, encoding } => ActionView::ReadFile { path, encoding: None },
        ActionView::WriteFile { path, contents, encoding } => ActionView::WriteFile {
            path,
            contents,
            encoding: None,
        },
    }
}

/// The coding that an action carries.
pub open spec fn coding_of(action: ActionView) -> Option<SupportedEncoding> {
    match action {
        ActionView::Respond(response) => response.encoding_type,
        ActionView::ReadFile { path, encoding } => encoding,
        ActionView::WriteFile { path, contents, encoding } => encoding,
    }
}

/// An element that `f` maps to `Some(y)` puts `y` into the result of
/// `filter_map`.
proof fn lemma_filter_map_keeps<A, B>(s: Seq<A>, f: spec_fn(A) -> Option<B>, i: int, y: B)
    requires
        0 <= i < s.len(),
        f(s[i]) == Some(y),
    ensures
        s.filter_map(f).contains(y),
    decreases s.len(),
{
    let rest = s.drop_last();
    if i == s.len() - 1 {
        let out = rest.filter_map(f) + seq![y];
        assert(s.filter_map(f) == out);
        assert(out[out.len() - 1] == y);
    } else {
        lemma_filter_map_keeps(rest, f, i, y);
        let k = choose|k: int| 0 <= k < rest.filter_map(f).len() && rest.filter_map(f)[k] == y;
        assert(s.filter_map(f)[k] == y);
    }
}

/// Gzip is negotiated exactly where the request's first `Accept-Encoding`
/// header lists it, and nothing else is ever negotiated.
pub proof fn theorem_negotiation(headers: Seq<HeaderView>)
    ensures
        negotiated_encoding(headers) == if header_value(headers, SupprotedHeader::AcceptEncoding)
            matches Some(value) && lists_gzip(value) {
            Some(SupportedEncoding::Gzip)
        } else {
            None
        },
{
    match header_value(headers, SupprotedHeader::AcceptEncoding) {
        Some(value) => {
            let items = spec_split(spec_trim(value), comma());
            let f = |item: Seq<char>| encoding_named(item);
            if lists_gzip(value) {
                let i = choose|i: int|
                    0 <= i < items.len() && spec_trim(#[trigger] items[i]) == "gzip"@;
                lemma_filter_map_keeps(items, f, i, SupportedEncoding::Gzip);
            }
            if encodings_in(value).contains(SupportedEncoding::Gzip) {
                items.lemma_filter_map_contains(f, SupportedEncoding::Gzip);
                let t = choose|t: Seq<char>| #[trigger]
                    items.contains(t) && f(t) == Some(SupportedEncoding::Gzip);
                let i = choose|i: int| 0 <= i < items.len() && items[i] == t;
                assert(spec_trim(items[i]) == "gzip"@);
            }
        },
        None => {
            assert(!Seq::<SupportedEncoding>::empty().contains(SupportedEncoding::Gzip));
        },
    }
}

/// A `GET` for `/echo/` followed by any text is answered with status 200 and
/// that text as content, and carries the negotiated coding.
pub proof fn theorem_echo(request: RequestView, directory: Seq<char>, text: Seq<char>)
    requires
        request.method == HttpMethod::Get,
        request.path == echo_prefix() + text,
    ensures
        action_for(request, directory) == ActionView::Respond(
            text_response(StatusCode::OK, text, negotiated_encoding(request.headers)),
        ),
{
    reveal_strlit("/");
    reveal_strlit("/echo/");
    assert(echo_prefix().len() == 6);
    assert(root_path().len() == 1);
    assert(request.path.subrange(0, 6) =~= echo_prefix());
    assert(request.path.skip(6) =~= text);
}

/// A `GET` for `/` is answered with status 200 and the greeting, whatever
/// headers the request has; they decide the coding only.
pub proof fn theorem_root(request: RequestView, directory: Seq<char>)
    requires
        request.method == HttpMethod::Get,
        request.path == root_path(),
    ensures
        action_for(request, directory) == ActionView::Respond(
            text_response(StatusCode::OK, greeting(), negotiated_encoding(request.headers)),
        ),
{
}

/// A `GET` for `/user-agent` is answered with the `User-Agent` value of the
/// request, white space around it set aside, and with status 400 and its
/// reason phrase where the request has no such header.
pub proof fn theorem_user_agent(request: RequestView, directory: Seq<char>)
    requires
        request.method == HttpMethod::Get,
        request.path == user_agent_path(),
    ensures
        action_for(request, directory) == ActionView::Respond(
            match header_value(request.headers, SupprotedHeader::UserAgent) {
                Some(value) => text_response(
                    StatusCode::OK,
                    spec_trim(value),
                    negotiated_encoding(request.headers),
                ),
                None => text_response(
                    StatusCode::BadRequest,
                    "Bad Request"@,
                    negotiated_encoding(request.headers),
                ),
            },
        ),
{
    reveal_strlit("/");
    reveal_strlit("/echo/");
    reveal_strlit("/user-agent");
    assert(root_path().len() == 1);
    assert(user_agent_path().len() == 11);
    assert(echo_prefix().len() == 6);
    assert(request.path.subrange(0, 6)[1] == 'u');
    assert(echo_prefix()[1] == 'e');
}

/// A `GET` for `/files/` followed by a name reads the file of that name in
/// the base directory, and a `POST` for it writes that file; the name is
/// taken as it stands.
pub proof fn theorem_files(request: RequestView, directory: Seq<char>, name: Seq<char>)
    requires
        request.path == files_prefix() + name,
    ensures
        request.method == HttpMethod::Get ==> action_for(request, directory)
            == (ActionView::ReadFile {
            path: directory + name,
            encoding: negotiated_encoding(request.headers),
        }),
        request.method == HttpMethod::Post ==> action_for(request, directory)
            == (ActionView::WriteFile {
            path: directory + name,
            contents: written_body(request),
            encoding: negotiated_encoding(request.headers),
        }),
{
    reveal_strlit("/");
    reveal_strlit("/echo/");
    reveal_strlit("/user-agent");
    reveal_strlit("/files/");
    assert(root_path().len() == 1);
    assert(user_agent_path().len() == 11);
    assert(echo_prefix().len() == 6);
    assert(files_prefix().len() == 7);
    assert(request.path.subrange(0, 7) =~= files_prefix());
    assert(request.path.skip(7) =~= name);
    assert(request.path.subrange(0, 6)[1] == 'f');
    assert(echo_prefix()[1] == 'e');
    assert(request.path[1] == 'f');
    assert(user_agent_path()[1] == 'u');
}

/// The action for a request carries the coding negotiated from its headers,
/// and nothing else in it depends on that coding: two requests that differ
/// only in headers that the routes do not read lead to the same action, the
/// coding set aside.
pub proof fn theorem_coding_is_separate(a: RequestView, b: RequestView, directory: Seq<char>)
    requires
        a.method == b.method,
        a.path == b.path,
        a.body == b.body,
        header_value(a.headers, SupprotedHeader::UserAgent) == header_value(
            b.headers,
            SupprotedHeader::UserAgent,
        ),
        header_value(a.headers, SupprotedHeader::ContentLength) == header_value(
            b.headers,
            SupprotedHeader::ContentLength,
        ),
    ensures
        coding_of(action_for(a, directory)) == negotiated_encoding(a.headers),
        uncoded(action_for(a, directory)) == uncoded(action_for(b, directory)),
{
}

/// A response in gzip whose content the encoder turns into `stream` goes on
/// the wire with `Content-Encoding: gzip` just before its `Content-Length`
/// and with `stream` as its body. The same response without a coding goes
/// out with the same status line and the same headers before those two,
/// and with the content itself as its body.
pub proof fn theorem_gzip_on_wire(response: ResponseView, stream: Seq<u8>)
    requires
        response.encoding_type == Some(SupportedEncoding::Gzip),
        gzip_stream(response.body) == Some(stream),
    ensures
        ({
            let sent = wire_headers(response.headers, response.encoding_type, stream.len());
            let plain = ResponseView { encoding_type: None, ..response };
            let plain_sent = wire_headers(plain.headers, None, plain.body.len());
            &&& sent.len() >= 2
            &&& sent[sent.len() - 2] == HeaderView {
                key: SupprotedHeader::ContentEncoding,
                value: "gzip"@,
            }
            &&& sent.last() == content_length_header(stream.len())
            &&& sent.take(sent.len() - 2) == plain_sent.drop_last()
            &&& wire_bytes(response) == encode_utf8(head(response.status_code, sent)) + stream
            &&& wire_bytes(plain) == encode_utf8(head(response.status_code, plain_sent))
                + response.body
        }),
{
    let sent = wire_headers(response.headers, response.encoding_type, stream.len());
    let plain = ResponseView { encoding_type: None, ..response };
    let plain_sent = wire_headers(plain.headers, None, plain.body.len());
    assert(sent.take(sent.len() - 2) =~= plain_sent.drop_last());
}

/// A request whose first `Accept-Encoding` header lists gzip, and the same
/// request without an `Accept-Encoding` header, both answered at once: the
/// two replies have the same status line and the same headers but for
/// `Content-Encoding: gzip`, which the first carries exactly once, just
/// before its `Content-Length`; and the body of the first is the gzip stream
/// that the encoder makes of the body of the second.
pub proof fn theorem_gzip_reply(
    coded: RequestView,
    plain: RequestView,
    directory: Seq<char>,
    stream: Seq<u8>,
)
    requires
        header_value(coded.headers, SupprotedHeader::AcceptEncoding) matches Some(value)
            && lists_gzip(value),
        header_value(plain.headers, SupprotedHeader::AcceptEncoding) is None,
        coded.method == plain.method,
        coded.path == plain.path,
        coded.body == plain.body,
        header_value(coded.headers, SupprotedHeader::UserAgent) == header_value(
            plain.headers,
            SupprotedHeader::UserAgent,
        ),
        header_value(coded.headers, SupprotedHeader::ContentLength) == header_value(
            plain.headers,
            SupprotedHeader::ContentLength,
        ),
        action_for(coded, directory) matches ActionView::Respond(response) && gzip_stream(
            response.body,
        ) == Some(stream),
    ensures
        ({
            &&& action_for(coded, directory) matches ActionView::Respond(response)
            &&& action_for(plain, directory) matches ActionView::Respond(other)
            &&& response.encoding_type == Some(SupportedEncoding::Gzip)
            &&& other == ResponseView { encoding_type: None, ..response }
            &&& {
                let sent = wire_headers(response.headers, response.encoding_type, stream.len());
                let other_sent = wire_headers(other.headers, None, other.body.len());
                &&& wire_bytes(response) == encode_utf8(head(response.status_code, sent)) + stream
                &&& wire_bytes(other) == encode_utf8(head(response.status_code, other_sent))
                    + other.body
                &&& gzip_stream(other.body) == Some(stream)
                &&& sent.take(sent.len() - 2) == other_sent.drop_last()
                &&& sent[sent.len() - 2] == HeaderView {
                    key: SupprotedHeader::ContentEncoding,
                    value: "gzip"@,
                }
                &&& forall|i: int|
                    0 <= i < sent.len() ==> ((#[trigger] sent[i]).key
                        == SupprotedHeader::ContentEncoding <==> i == sent.len() - 2)
            }
        }),
{
    theorem_negotiation(coded.headers);
    theorem_negotiation(plain.headers);
    theorem_coding_is_separate(coded, plain, directory);
    theorem_route_headers(coded, directory);
    match action_for(coded, directory) {
        ActionView::Respond(response) => {
            theorem_gzip_on_wire(response, stream);
            theorem_wire_headers(response.headers, response.encoding_type, stream.len());
        },
        _ => {},
    }
}

/// Where the encoder fails on the content of a response with a coding, the
/// plain 500 response goes on the wire in its place.
pub proof fn theorem_encoder_failure(response: ResponseView)
    requires
        response.encoding_type matches Some(e) && encoded(e, response.body) is None,
    ensures
        wire_bytes(response) == wire_bytes(encoder_failure()),
        wire_bytes(response) == encode_utf8(
            head(
                StatusCode::InternalServerError,
                seq![
                    HeaderView { key: SupprotedHeader::ContentType, value: "text/plain"@ },
                    content_length_header(encoder_failure().body.len()),
                ],
            ),
        ) + encode_utf8("Internal Server Error"@),
{
    let empty = Seq::<HeaderView>::empty();
    assert(wire_headers(empty, None, encoder_failure().body.len()) =~= seq![
        HeaderView { key: SupprotedHeader::ContentType, value: "text/plain"@ },
        content_length_header(encoder_failure().body.len()),
    ]);
}

/// The last header of a message with the headers of `response` and the body
/// `wire_body` is `Content-Length`, its value is the decimal numeral of the
/// length of that body, and the body follows the empty line after it at once.
pub proof fn theorem_content_length(response: ResponseView, wire_body: Seq<u8>)
    ensures
        ({
            let sent = wire_headers(response.headers, response.encoding_type, wire_body.len());
            let length = content_length_header(wire_body.len());
            &&& sent.len() >= 1
            &&& sent.last() == length
            &&& decimal_value(length.value) == Some(wire_body.len())
            &&& response_bytes(response, wire_body) == encode_utf8(
                status_line(response.status_code) + crlf() + header_block(sent.drop_last())
                    + header_text(length) + crlf() + crlf(),
            ) + wire_body
        }),
{
    let sent = wire_headers(response.headers, response.encoding_type, wire_body.len());
    let length = content_length_header(wire_body.len());
    lemma_decimal_value_of_decimal(wire_body.len());
    assert(header_block(sent) == header_block(sent.drop_last()) + header_text(sent.last())
        + crlf());
    assert(head(response.status_code, sent) =~= status_line(response.status_code) + crlf()
        + header_block(sent.drop_last()) + header_text(length) + crlf() + crlf());
}

/// Whatever response is given, what goes on the wire for it ends with a
/// `Content-Length` header that gives the length of the body as sent, an
/// empty line, and that body: the content, the stream that the codec makes
/// of it, or the reason phrase of the 500 response that stands in where the
/// encoder fails.
pub proof fn theorem_content_length_on_wire(response: ResponseView)
    ensures
        ({
            let shown = if wire_body(response) is Some {
                response
            } else {
                encoder_failure()
            };
            let body = match wire_body(response) {
                Some(body) => body,
                None => encoder_failure().body,
            };
            let sent = wire_headers(shown.headers, shown.encoding_type, body.len());
            let length = content_length_header(body.len());
            &&& sent.last() == length
            &&& decimal_value(length.value) == Some(body.len())
            &&& wire_bytes(response) == encode_utf8(
                status_line(shown.status_code) + crlf() + header_block(sent.drop_last())
                    + header_text(length) + crlf() + crlf(),
            ) + body
        }),
{
    match wire_body(response) {
        Some(body) => theorem_content_length(response, body),
        None => theorem_content_length(encoder_failure(), encoder_failure().body),
    }
}

/// The length that a gzip response declares is never zero: the stream has
/// its header and trailer even where the content is empty.
pub proof fn theorem_gzip_length(stream: Seq<u8>)
    requires
        gzip_framed(stream),
    ensures
        stream.len() >= 18,
        content_length_header(stream.len()).value != decimal(0),
{
    lemma_decimal_value_of_decimal(stream.len());
    lemma_decimal_value_of_decimal(0);
}

/// A message that is no request is refused with status 400.
pub proof fn theorem_parse_failure(text: Seq<char>, directory: Seq<char>)
    requires
        parse_request(text) is Err,
    ensures
        action_for_message(text, directory) matches ActionView::Respond(response)
            && response.status_code == StatusCode::BadRequest,
{
}

/// A line followed by a line break is cut off as the first line of the
/// message.
pub proof fn lemma_first_line(line: Seq<char>, rest: Seq<char>)
    requires
        find(line, crlf()) is None,
    ensures
        spec_split_once(line + crlf() + rest, crlf()) == Some((line, rest)),
{
    reveal_strlit("\r\n");
    let text = line + crlf() + rest;
    let n = line.len() as int;
    assert(crlf().len() == 2);
    assert(crlf()[0] == '\r' && crlf()[1] == '\n');
    assert(text.subrange(n, n + 2) =~= crlf());
    lemma_find(line, crlf());
    assert forall|j: int| 0 <= j < n implies !matches_at(text, crlf(), j) by {
        if matches_at(text, crlf(), j) {
            let found = text.subrange(j, j + 2);
            assert(found[0] == text[j] && found[1] == text[j + 1]);
            if j + 2 <= n {
                assert(line.subrange(j, j + 2) =~= found);
                assert(matches_at(line, crlf(), j));
            } else {
                assert(text[j + 1] == crlf()[0]);
            }
        }
    }
    assert(is_first_match(text, crlf(), n));
    lemma_first_match_unique(text, crlf(), n);
    assert(text.take(n) =~= line);
    assert(text.skip(n + 2) =~= rest);
}

/// A message whose status line is not exactly three words, be they two, four
/// or any other number, is refused with status 400, whatever follows the
/// line.
pub proof fn theorem_status_line_words(line: Seq<char>, rest: Seq<char>, directory: Seq<char>)
    requires
        find(line, crlf()) is None,
        words(line).len() != 3,
    ensures
        parse_request(line + crlf() + rest) is Err,
        action_for_message(line + crlf() + rest, directory) matches ActionView::Respond(response)
            && response.status_code == StatusCode::BadRequest,
{
    lemma_first_line(line, rest);
}

} // verus!
