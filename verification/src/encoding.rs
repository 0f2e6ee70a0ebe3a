//! Content-encoding negotiation: from the headers of a request to the coding
//! of the response.
//!
//! Both codings of the closed set are read from `Accept-Encoding`, but only
//! gzip is ever chosen: a request that accepts deflate alone is answered
//! without compression.

use vstd::prelude::*;
use crate::header::{find_header, header_value, header_views, Header, HeaderView};
use crate::text::{spec_split, spec_trim, split, trim, views};
use crate::tokens::{SupportedEncoding, SupprotedHeader};

verus! {

/// The separator of the codings in an `Accept-Encoding` value.
pub open spec fn comma() -> Seq<char> {
    ","@
}

/// The coding that one item of an `Accept-Encoding` value names, white space
/// around it set aside.
pub open spec fn encoding_named(item: Seq<char>) -> Option<SupportedEncoding> {
    SupportedEncoding::parse(spec_trim(item))
}

/// The known codings that an `Accept-Encoding` value lists, in its order.
/// Items that name no known coding are dropped.
pub open spec fn encodings_in(value: Seq<char>) -> Seq<SupportedEncoding> {
    spec_split(spec_trim(value), comma()).filter_map(|item: Seq<char>| encoding_named(item))
}

/// The known codings that a request accepts: those of its first
/// `Accept-Encoding` header, none without such a header.
pub open spec fn accepted_encodings(headers: Seq<HeaderView>) -> Seq<SupportedEncoding> {
    match header_value(headers, SupprotedHeader::AcceptEncoding) {
        Some(value) => encodings_in(value),
        None => Seq::empty(),
    }
}

/// The coding chosen among the accepted ones: gzip where it is accepted,
/// none otherwise.
pub open spec fn preferred_encoding(accepted: Seq<SupportedEncoding>) -> Option<
    SupportedEncoding,
> {
    if accepted.contains(SupportedEncoding::Gzip) {
        Some(SupportedEncoding::Gzip)
    } else {
        None
    }
}

/// The coding of the response to a request with these headers.
pub open spec fn negotiated_encoding(headers: Seq<HeaderView>) -> Option<SupportedEncoding> {
    preferred_encoding(accepted_encodings(headers))
}

impl SupportedEncoding {
    /// The known codings that the first `Accept-Encoding` header lists.
    pub fn retrieve_supported_encodings(headers: &[Header]) -> (r: Vec<SupportedEncoding>)
        ensures
            r@ == accepted_encodings(header_views(headers@)),
    {
        let mut out: Vec<SupportedEncoding> = Vec::new();
        let value = match find_header(headers, SupprotedHeader::AcceptEncoding) {
            Some(value) => value,
            None => {
                return out;
            },
        };
        let items = split(trim(value), ",");
        let ghost all = views(items@);
        let ghost f = |item: Seq<char>| encoding_named(item);
        proof {
            assert(all.take(0) =~= Seq::empty());
        }
        let mut k: usize = 0;
        while k < items.len()
            invariant
                k <= items.len(),
                all == views(items@),
                f == |item: Seq<char>| encoding_named(item),
                out@ == all.take(k as int).filter_map(f),
            decreases items.len() - k,
        {
            proof {
                assert(all.take(k + 1).drop_last() =~= all.take(k as int));
                assert(all.take(k + 1).last() == items@[k as int]@);
            }
            match SupportedEncoding::from_str(trim(items[k])) {
                Some(encoding) => {
                    let ghost before = out@;
                    out.push(encoding);
                    proof {
                        assert(out@ =~= before + seq![encoding]);
                    }
                },
                None => {},
            }
            k += 1;
        }
        proof {
            assert(all.take(k as int) =~= all);
        }
        out
    }

    /// Chooses among the accepted codings: gzip or none.
    pub fn select(accepted: &[SupportedEncoding]) -> (r: Option<SupportedEncoding>)
        ensures
            r == preferred_encoding(accepted@),
    {
        let mut k: usize = 0;
        while k < accepted.len()
            invariant
                k <= accepted.len(),
                forall|i: int| 0 <= i < k ==> accepted@[i] != SupportedEncoding::Gzip,
            decreases accepted.len() - k,
        {
            if accepted[k] == SupportedEncoding::Gzip {
                return Some(SupportedEncoding::Gzip);
            }
            k += 1;
        }
        None
    }

    /// The coding of the response to a request with these headers.
    pub fn negotiate(headers: &[Header]) -> (r: Option<SupportedEncoding>)
        ensures
            r == negotiated_encoding(header_views(headers@)),
    {
        let accepted = SupportedEncoding::retrieve_supported_encodings(headers);
        SupportedEncoding::select(accepted.as_slice())
    }
}

} // verus!
