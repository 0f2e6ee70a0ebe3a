//! Headers: a name of the closed set with a text value, kept in the order in
//! which they were read or added.

use std::rc::Rc;
use vstd::prelude::*;
use crate::tokens::SupprotedHeader;

verus! {

/// One header of a request or a response.
#[derive(Debug, Clone)]
pub struct Header {
    pub key: SupprotedHeader,
    pub value: Rc<String>,
}

/// What a header is: its name and the characters of its value.
pub struct HeaderView {
    pub key: SupprotedHeader,
    pub value: Seq<char>,
}

impl View for Header {
    type V = HeaderView;

    open spec fn view(&self) -> HeaderView {
        HeaderView { key: self.key, value: self.value@ }
    }
}

/// The views of a sequence of headers.
pub open spec fn header_views(headers: Seq<Header>) -> Seq<HeaderView> {
    headers.map_values(|h: Header| h@)
}

/// The views of a sequence of pairs of string slices.
pub open spec fn pair_views(pairs: Seq<(&str, &str)>) -> Seq<(Seq<char>, Seq<char>)> {
    pairs.map_values(|p: (&str, &str)| (p.0@, p.1@))
}

/// The header that a pair of name and value stands for, if the name is one of
/// the closed set.
pub open spec fn known_header(pair: (Seq<char>, Seq<char>)) -> Option<HeaderView> {
    match SupprotedHeader::parse(pair.0) {
        Some(key) => Some(HeaderView { key, value: pair.1 }),
        None => None,
    }
}

/// The headers among `pairs` whose names belong to the closed set, in their
/// order. The others are dropped.
pub open spec fn known_headers(pairs: Seq<(Seq<char>, Seq<char>)>) -> Seq<HeaderView> {
    pairs.filter_map(|p: (Seq<char>, Seq<char>)| known_header(p))
}

/// The value of the first header named `key`.
pub open spec fn header_value(headers: Seq<HeaderView>, key: SupprotedHeader) -> Option<Seq<char>>
    decreases headers.len(),
{
    if headers.len() == 0 {
        None
    } else if headers[0].key == key {
        Some(headers[0].value)
    } else {
        header_value(headers.drop_first(), key)
    }
}

/// Whether some header is named `key`.
pub open spec fn has_header(headers: Seq<HeaderView>, key: SupprotedHeader) -> bool {
    exists|i: int| 0 <= i < headers.len() && #[trigger] headers[i].key == key
}

impl Header {
    pub fn new(key: SupprotedHeader, value: Rc<String>) -> (r: Header)
        ensures
            r.key == key,
            r.value == value,
    {
        Header { key, value }
    }

    /// A header with the given name and a copy of `value`.
    pub fn from_text(key: SupprotedHeader, value: &str) -> (r: Header)
        ensures
            r@ == (HeaderView { key, value: value@ }),
    {
        Header { key, value: Rc::new(value.to_owned()) }
    }

    /// Keeps the pairs whose names are header names of the closed set, and
    /// turns each into a header.
    pub fn parse_headers(headers: Vec<(&str, &str)>) -> (r: Vec<Header>)
        ensures
            header_views(r@) == known_headers(pair_views(headers@)),
    {
        let mut out: Vec<Header> = Vec::new();
        let ghost pairs = pair_views(headers@);
        let ghost f = |p: (Seq<char>, Seq<char>)| known_header(p);
        proof {
            assert(pairs.take(0) =~= Seq::empty());
            assert(header_views(out@) =~= Seq::empty());
        }
        let mut k: usize = 0;
        while k < headers.len()
            invariant
                k <= headers.len(),
                pairs == pair_views(headers@),
                f == |p: (Seq<char>, Seq<char>)| known_header(p),
                header_views(out@) == pairs.take(k as int).filter_map(f),
            decreases headers.len() - k,
        {
            let (name, value) = headers[k];
            let ghost before = header_views(out@);
            proof {
                assert(pairs.take(k + 1).drop_last() =~= pairs.take(k as int));
                assert(pairs.take(k + 1).last() == (name@, value@));
            }
            match SupprotedHeader::from_str(name) {
                Some(key) => {
                    let header = Header::from_text(key, value);
                    out.push(header);
                    proof {
                        assert(header_views(out@) =~= before + seq![header@]);
                    }
                },
                None => {},
            }
            k += 1;
        }
        proof {
            assert(pairs.take(k as int) =~= pairs);
        }
        out
    }
}

/// The value of the first header named `key`.
pub fn find_header<'a>(headers: &'a [Header], key: SupprotedHeader) -> (r: Option<&'a str>)
    ensures
        match r {
            Some(v) => header_value(header_views(headers@), key) == Some(v@),
            None => header_value(header_views(headers@), key) is None,
        },
{
    let ghost all = header_views(headers@);
    let mut k: usize = 0;
    proof {
        assert(all.skip(0) =~= all);
    }
    while k < headers.len()
        invariant
            k <= headers.len(),
            all == header_views(headers@),
            header_value(all, key) == header_value(all.skip(k as int), key),
        decreases headers.len() - k,
    {
        if headers[k].key == key {
            let value: &String = &headers[k].value;
            return Some(value.as_str());
        }
        proof {
            assert(all.skip(k as int).drop_first() =~= all.skip(k + 1));
        }
        k += 1;
    }
    None
}

/// A present value is the value of some header of that name, and an absent
/// one means that no header has the name.
pub proof fn lemma_header_value_present(headers: Seq<HeaderView>, key: SupprotedHeader)
    ensures
        header_value(headers, key) is Some <==> has_header(headers, key),
    decreases headers.len(),
{
    if headers.len() > 0 {
        if headers[0].key == key {
        } else {
            lemma_header_value_present(headers.drop_first(), key);
            if has_header(headers, key) {
                let i = choose|i: int| 0 <= i < headers.len() && #[trigger] headers[i].key == key;
                assert(headers.drop_first()[i - 1].key == key);
            }
            if has_header(headers.drop_first(), key) {
                let i = choose|i: int|
                    0 <= i < headers.drop_first().len() && #[trigger] headers.drop_first()[i].key
                        == key;
                assert(headers[i + 1].key == key);
            }
        }
    }
}

} // verus!
