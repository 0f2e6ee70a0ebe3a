//! The two codecs, as the `flate2` crate provides them.
//!
//! Nothing of the compressed formats is modelled here. What an encoder makes
//! of given data, a stream or an error, is a function of the data, and the
//! rest of the library speaks of it by name only.

use flate2::write::{DeflateEncoder, GzEncoder};
use flate2::Compression;
use std::io::Write;
use vstd::prelude::*;
use crate::tokens::SupportedEncoding;

verus! {

/// What `flate2::write::GzEncoder` makes of `data` at the default compression
/// level: the gzip stream, or `None` where the encoder reports an error.
pub uninterp spec fn gzip_stream(data: Seq<u8>) -> Option<Seq<u8>>;

/// What `flate2::write::DeflateEncoder` makes of `data` at the default
/// compression level: the raw deflate stream, or `None` where the encoder
/// reports an error.
pub uninterp spec fn deflate_stream(data: Seq<u8>) -> Option<Seq<u8>>;

/// What the codec of `encoding` makes of `data`.
pub open spec fn encoded(encoding: SupportedEncoding, data: Seq<u8>) -> Option<Seq<u8>> {
    match encoding {
        SupportedEncoding::Gzip => gzip_stream(data),
        SupportedEncoding::Deflate => deflate_stream(data),
    }
}

/// The frame of a gzip stream as far as its form is fixed: the two magic
/// bytes in front, and room for the ten bytes of the header and the eight of
/// the trailer.
pub open spec fn gzip_framed(stream: Seq<u8>) -> bool {
    stream.len() >= 18 && stream[0] == 0x1f && stream[1] == 0x8b
}

/// Whether `stream` has the form that the coding `encoding` fixes.
pub open spec fn framed(encoding: SupportedEncoding, stream: Seq<u8>) -> bool {
    encoding == SupportedEncoding::Gzip ==> gzip_framed(stream)
}

/// Runs `flate2::write::GzEncoder` over `data`: a new encoder around an empty
/// vector, at the default level, is fed all of `data` with `write_all` and
/// closed with `finish`. An error of either call gives `None`.
///
/// Trusted: the outcome depends on `data` alone and is the one named
/// `gzip_stream(data)`. The encoder writes into a vector, the header it
/// writes holds no time stamp and no mark of the machine, and the compressor
/// keeps no state between calls. Nothing is claimed about which data make
/// the encoder fail. A stream that comes back begins with the ten bytes of
/// the gzip header, of which the first two are `1f 8b`, and ends with the
/// eight bytes of check sum and length.
#[verifier::external_body]
fn gzip_encode(data: &[u8]) -> (r: Option<Vec<u8>>)
    ensures
        match r {
            Some(stream) => gzip_stream(data@) == Some(stream@),
            None => gzip_stream(data@) is None,
        },
        r matches Some(stream) ==> gzip_framed(stream@),
{
    let mut encoder = GzEncoder::new(Vec::new(), Compression::default());
    match encoder.write_all(data) {
        Ok(()) => encoder.finish().ok(),
        Err(_) => None,
    }
}

/// Runs `flate2::write::DeflateEncoder` over `data`: a new encoder around an
/// empty vector, at the default level, is fed all of `data` with `write_all`
/// and closed with `finish`. An error of either call gives `None`.
///
/// Trusted: the outcome depends on `data` alone and is the one named
/// `deflate_stream(data)`. Nothing is claimed about which data make the
/// encoder fail, nor about the form of the stream.
#[verifier::external_body]
fn deflate_encode(data: &[u8]) -> (r: Option<Vec<u8>>)
    ensures
        match r {
            Some(stream) => deflate_stream(data@) == Some(stream@),
            None => deflate_stream(data@) is None,
        },
{
    let mut encoder = DeflateEncoder::new(Vec::new(), Compression::default());
    match encoder.write_all(data) {
        Ok(()) => encoder.finish().ok(),
        Err(_) => None,
    }
}

/// Compresses `data` with the codec of `encoding`: the stream that the codec
/// makes of `data`, or `None` where its encoder reports an error.
pub fn compress(data: &[u8], encoding: SupportedEncoding) -> (r: Option<Vec<u8>>)
    ensures
        match r {
            Some(stream) => encoded(encoding, data@) == Some(stream@),
            None => encoded(encoding, data@) is None,
        },
        r matches Some(stream) ==> framed(encoding, stream@),
{
    match encoding {
        SupportedEncoding::Gzip => gzip_encode(data),
        SupportedEncoding::Deflate => deflate_encode(data),
    }
}

} // verus!
