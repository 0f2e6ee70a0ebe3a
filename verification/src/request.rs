//! The request parser: from the text of a message to a typed request.
//!
//! A message is a status line, a block of header lines and a body. The status
//! line ends at the first line break of the message; the body begins after
//! the last one. What stands between them is the header block.
//!
//! The body is thus found by the last line break of the message, not by the
//! first empty line. The two agree as long as the body holds no line break.
//! A body that holds one loses everything up to its last line break to the
//! header block, where those lines are read as header lines: the request is
//! refused if one of them has no colon, and accepted with a shortened body
//! otherwise.

use vstd::prelude::*;
use vstd::string::*;
use crate::header::{
    find_header, header_value, header_views, known_headers, pair_views, Header, HeaderView,
};
use crate::text::{
    find, rsplit_once, spec_rsplit_once, spec_split, spec_split_once, split, split_once,
    split_whitespace, views, words,
};
use crate::tokens::{HttpMethod, HttpVersion, SupprotedHeader};

verus! {

/// The line break of the protocol: carriage return, line feed.
pub open spec fn crlf() -> Seq<char> {
    "\r\n"@
}

/// The separator between a header's name and its value.
pub open spec fn colon() -> Seq<char> {
    ":"@
}

/// Why a message is not a request.
#[derive(Debug, Clone, Copy, PartialEq, Eq, Structural)]
pub enum ParseError {
    /// The message has no line break after the status line, or none after it
    /// to end the header block.
    MissingLineBreak,
    /// The status line does not consist of exactly three words.
    InvalidStatusLine,
    /// The first word of the status line is not a method.
    UnknownMethod,
    /// The third word of the status line is not a version.
    UnknownVersion,
    /// A header line has no colon.
    MalformedHeaderLine,
}

impl ParseError {
    /// The reason, in words.
    pub open spec fn reason(self) -> Seq<char> {
        match self {
            ParseError::MissingLineBreak => "Missing line break"@,
            ParseError::InvalidStatusLine => "Invalid status line"@,
            ParseError::UnknownMethod => "Matching variant not found"@,
            ParseError::UnknownVersion => "Matching variant not found"@,
            ParseError::MalformedHeaderLine => "Invalid header line"@,
        }
    }

    /// The reason, in words.
    pub fn to_string(&self) -> (r: String)
        ensures
            r@ == self.reason(),
    {
        match self {
            ParseError::MissingLineBreak => "Missing line break".to_owned(),
            ParseError::InvalidStatusLine => "Invalid status line".to_owned(),
            ParseError::UnknownMethod => "Matching variant not found".to_owned(),
            ParseError::UnknownVersion => "Matching variant not found".to_owned(),
            ParseError::MalformedHeaderLine => "Invalid header line".to_owned(),
        }
    }
}

/// A parsed request. The path borrows from the text of the message.
#[derive(Debug)]
pub struct HttpRequest<'a> {
    pub method: HttpMethod,
    pub path: &'a str,
    pub version: HttpVersion,
    pub headers: Vec<Header>,
    pub body: String,
}

/// What a request is.
pub struct RequestView {
    pub method: HttpMethod,
    pub path: Seq<char>,
    pub version: HttpVersion,
    pub headers: Seq<HeaderView>,
    pub body: Seq<char>,
}

impl<'a> View for HttpRequest<'a> {
    type V = RequestView;

    open spec fn view(&self) -> RequestView {
        RequestView {
            method: self.method,
            path: self.path@,
            version: self.version,
            headers: header_views(self.headers@),
            body: self.body@,
        }
    }
}

/// The status line, the header block and the body of a message: the text
/// before its first line break, the text after its last one, and what lies
/// between. `None` where the message has no line break, or only the one that
/// ends the status line.
pub open spec fn request_components(text: Seq<char>) -> Option<(Seq<char>, Seq<char>, Seq<char>)> {
    match spec_split_once(text, crlf()) {
        Some((status_line, rest)) => match spec_rsplit_once(rest, crlf()) {
            Some((header_block, body)) => Some((status_line, header_block, body)),
            None => None,
        },
        None => None,
    }
}

/// A line that is not empty.
pub open spec fn is_content(line: Seq<char>) -> bool {
    line.len() > 0
}

/// The lines of a header block that are not empty.
pub open spec fn header_lines(block: Seq<char>) -> Seq<Seq<char>> {
    spec_split(block, crlf()).filter(|line: Seq<char>| is_content(line))
}

/// The name and the value of a header line: the text before and after its
/// first colon.
pub open spec fn header_pair(line: Seq<char>) -> (Seq<char>, Seq<char>) {
    spec_split_once(line, colon()).unwrap()
}

/// The pairs of name and value of a header block, one for each line that is
/// not empty. `None` where one of those lines has no colon.
pub open spec fn request_headers(block: Seq<char>) -> Option<Seq<(Seq<char>, Seq<char>)>> {
    let lines = header_lines(block);
    if forall|i: int| 0 <= i < lines.len() ==> find(#[trigger] lines[i], colon()) is Some {
        Some(lines.map_values(|line: Seq<char>| header_pair(line)))
    } else {
        None
    }
}

/// The request that a message holds, or the first reason why it holds none.
pub open spec fn parse_request(text: Seq<char>) -> Result<RequestView, ParseError> {
    match request_components(text) {
        None => Err(ParseError::MissingLineBreak),
        Some((status_line, header_block, body)) => {
            let parts = words(status_line);
            if parts.len() != 3 {
                Err(ParseError::InvalidStatusLine)
            } else {
                match HttpMethod::parse(parts[0]) {
                    None => Err(ParseError::UnknownMethod),
                    Some(method) => match HttpVersion::parse(parts[2]) {
                        None => Err(ParseError::UnknownVersion),
                        Some(version) => match request_headers(header_block) {
                            None => Err(ParseError::MalformedHeaderLine),
                            Some(pairs) => Ok(
                                RequestView {
                                    method,
                                    path: parts[1],
                                    version,
                                    headers: known_headers(pairs),
                                    body,
                                },
                            ),
                        },
                    },
                }
            }
        },
    }
}

/// Cuts a message into status line, header block and body.
pub fn extract_request_components(https_request: &str) -> (r: Option<(&str, &str, &str)>)
    ensures
        match r {
            Some((status_line, header_block, body)) => request_components(https_request@) == Some(
                (status_line@, header_block@, body@),
            ),
            None => request_components(https_request@) is None,
        },
{
    match split_once(https_request, "\r\n") {
        Some((status_line, rest)) => match rsplit_once(rest, "\r\n") {
            Some((header_block, body)) => Some((status_line, header_block, body)),
            None => None,
        },
        None => None,
    }
}

/// Cuts a header block into pairs of name and value.
pub fn extract_request_headers(header_line: &str) -> (r: Option<Vec<(&str, &str)>>)
    ensures
        match r {
            Some(pairs) => request_headers(header_line@) == Some(pair_views(pairs@)),
            None => request_headers(header_line@) is None,
        },
{
    let pieces = split(header_line, "\r\n");
    let ghost all = views(pieces@);
    let ghost keep = |line: Seq<char>| is_content(line);
    let ghost cut = |line: Seq<char>| header_pair(line);
    let mut out: Vec<(&str, &str)> = Vec::new();
    let mut k: usize = 0;
    proof {
        assert(all.take(0) =~= Seq::empty());
        assert(pair_views(out@) =~= Seq::empty());
    }
    while k < pieces.len()
        invariant
            k <= pieces.len(),
            all == views(pieces@),
            all == spec_split(header_line@, crlf()),
            keep == |line: Seq<char>| is_content(line),
            cut == |line: Seq<char>| header_pair(line),
            pair_views(out@) == all.take(k as int).filter(keep).map_values(cut),
            forall|i: int|
                0 <= i < all.take(k as int).filter(keep).len() ==> find(
                    #[trigger] all.take(k as int).filter(keep)[i],
                    colon(),
                ) is Some,
        decreases pieces.len() - k,
    {
        let line = pieces[k];
        let ghost done = all.take(k as int).filter(keep);
        proof {
            reveal(Seq::filter);
            assert(all.take(k + 1).drop_last() =~= all.take(k as int));
            assert(all.take(k + 1).last() == line@);
            assert(line@ == all[k as int]);
        }
        if line.unicode_len() > 0 {
            proof {
                assert(all.take(k + 1).filter(keep) =~= done.push(line@));
            }
            match split_once(line, ":") {
                Some(pair) => {
                    let ghost before = pair_views(out@);
                    out.push(pair);
                    proof {
                        assert(pair_views(out@) =~= before.push((pair.0@, pair.1@)));
                        assert(done.push(line@).map_values(cut) =~= done.map_values(cut).push(
                            header_pair(line@),
                        ));
                    }
                },
                None => {
                    proof {
                        broadcast use vstd::seq_lib::group_filter_ensures;

                        let lines = header_lines(header_line@);
                        assert(keep(all[k as int]));
                        assert(lines.contains(all[k as int]));
                        let i = choose|i: int| 0 <= i < lines.len() && lines[i] == all[k as int];
                        assert(find(lines[i], colon()) is None);
                    }
                    return None;
                },
            }
        } else {
            proof {
                assert(all.take(k + 1).filter(keep) =~= done);
            }
        }
        k += 1;
    }
    proof {
        assert(all.take(k as int) =~= all);
    }
    Some(out)
}

impl<'a> HttpRequest<'a> {
    /// The value of the first header named `key`.
    pub fn get_header_value(&self, key: SupprotedHeader) -> (r: Option<&str>)
        ensures
            match r {
                Some(v) => header_value(self@.headers, key) == Some(v@),
                None => header_value(self@.headers, key) is None,
            },
    {
        find_header(self.headers.as_slice(), key)
    }

    /// Parses a message. Fails with the first reason, in this order: no line
    /// breaks to cut the message at, a status line that is not three words,
    /// an unknown method, an unknown version, a header line without a colon.
    pub fn new(http_request: &'a str) -> (r: Result<HttpRequest<'a>, ParseError>)
        ensures
            match r {
                Ok(request) => parse_request(http_request@) == Ok::<RequestView, ParseError>(
                    request@,
                ),
                Err(e) => parse_request(http_request@) == Err::<RequestView, ParseError>(e),
            },
    {
        let (status_line, header_line, body_line) = match extract_request_components(
            http_request,
        ) {
            Some(components) => components,
            None => {
                return Err(ParseError::MissingLineBreak);
            },
        };
        let status_parts = split_whitespace(status_line);
        if status_parts.len() != 3 {
            return Err(ParseError::InvalidStatusLine);
        }
        proof {
            assert(views(status_parts@)[0] == status_parts@[0]@);
            assert(views(status_parts@)[1] == status_parts@[1]@);
            assert(views(status_parts@)[2] == status_parts@[2]@);
        }
        let method = match HttpMethod::from_str(status_parts[0]) {
            Some(method) => method,
            None => {
                return Err(ParseError::UnknownMethod);
            },
        };
        let path = status_parts[1];
        let version = match HttpVersion::from_str(status_parts[2]) {
            Some(version) => version,
            None => {
                return Err(ParseError::UnknownVersion);
            },
        };
        let pairs = match extract_request_headers(header_line) {
            Some(pairs) => pairs,
            None => {
                return Err(ParseError::MalformedHeaderLine);
            },
        };
        let headers = Header::parse_headers(pairs);
        Ok(HttpRequest { method, path, version, headers, body: body_line.to_owned() })
    }
}

} // verus!
