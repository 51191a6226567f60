//! Content codings: how they are named, and how coded bytes are read back.

use crate::headers::{get_all, header_text, value_text, values_of};
use crate::text::{items_of, list_items, same_but_case, same_ignoring_case, views};
use async_compression::tokio::bufread::{BrotliDecoder, GzipDecoder, ZlibDecoder, ZstdDecoder};
use futures_util::FutureExt;
use http::HeaderMap;
use tokio::io::AsyncReadExt;
use vstd::prelude::*;
use vstd::slice::slice_to_vec;

verus! {

/// The content codings that can be read.
#[derive(Debug, Clone, Copy, PartialEq, Eq, Structural)]
pub enum Coding {
    Identity,
    Gzip,
    Deflate,
    Br,
    Zstd,
}

/// The coding that a token names, whatever the case of its letters.
pub open spec fn coding_of(token: Seq<char>) -> Option<Coding> {
    if same_but_case(token, "identity"@) {
        Some(Coding::Identity)
    } else if same_but_case(token, "gzip"@) || same_but_case(token, "x-gzip"@) {
        Some(Coding::Gzip)
    } else if same_but_case(token, "deflate"@) {
        Some(Coding::Deflate)
    } else if same_but_case(token, "br"@) {
        Some(Coding::Br)
    } else if same_but_case(token, "zstd"@) {
        Some(Coding::Zstd)
    } else {
        None
    }
}

impl Coding {
    /// Reads the name of a coding.
    pub fn parse(s: &str) -> (res: Option<Self>)
        ensures
            res == coding_of(s@),
    {
        if same_ignoring_case(s, "identity") {
            Some(Coding::Identity)
        } else if same_ignoring_case(s, "gzip") || same_ignoring_case(s, "x-gzip") {
            Some(Coding::Gzip)
        } else if same_ignoring_case(s, "deflate") {
            Some(Coding::Deflate)
        } else if same_ignoring_case(s, "br") {
            Some(Coding::Br)
        } else if same_ignoring_case(s, "zstd") {
            Some(Coding::Zstd)
        } else {
            None
        }
    }
}

/// The coding that a message declares for its body: none where it has no `Content-Encoding`
/// field; the named one where the field has one value that lists one known coding; unreadable
/// (`None`) in every other case.
pub open spec fn declared_coding(headers: HeaderMap) -> Option<Coding> {
    let values = values_of(headers, "content-encoding"@);
    if values.len() == 0 {
        Some(Coding::Identity)
    } else if values.len() > 1 {
        None
    } else {
        match header_text(values[0]) {
            Some(t) => if list_items(t).len() == 1 {
                coding_of(list_items(t)[0])
            } else {
                None
            },
            None => None,
        }
    }
}

/// Finds the coding that a request or a reply declares for its body.
pub fn parse_content_encoding(headers: &HeaderMap) -> (res: Option<Coding>)
    ensures
        res == declared_coding(*headers),
{
    let values = get_all(headers, "content-encoding");
    assert(values.deep_view().len() == values@.len());
    if values.len() == 0 {
        return Some(Coding::Identity);
    }
    if values.len() > 1 {
        return None;
    }
    assert(values.deep_view()[0] == values@[0]@);
    match value_text(values[0].as_slice()) {
        Some(t) => {
            let items = items_of(t);
            assert(views(items@).len() == items@.len());
            if items.len() != 1 {
                return None;
            }
            assert(views(items@)[0] == items@[0]@);
            Coding::parse(items[0])
        },
        None => None,
    }
}

/// What `async_compression`'s gzip decoder gives of `input` when at most `limit` bytes are read
/// from it; `None` where it reports an error before that.
pub uninterp spec fn gzip_read(input: Seq<u8>, limit: u64) -> Option<Seq<u8>>;

/// What `async_compression`'s zlib decoder gives, as `gzip_read` does for gzip.
pub uninterp spec fn zlib_read(input: Seq<u8>, limit: u64) -> Option<Seq<u8>>;

/// What `async_compression`'s Brotli decoder gives, as `gzip_read` does for gzip.
pub uninterp spec fn brotli_read(input: Seq<u8>, limit: u64) -> Option<Seq<u8>>;

/// What `async_compression`'s Zstandard decoder gives, as `gzip_read` does for gzip.
pub uninterp spec fn zstd_read(input: Seq<u8>, limit: u64) -> Option<Seq<u8>>;

/// The bytes of an optional buffer.
pub open spec fn bytes_view(bytes: Option<Vec<u8>>) -> Option<Seq<u8>> {
    match bytes {
        Some(b) => Some(b@),
        None => None,
    }
}

/// `async_compression::tokio::bufread::GzipDecoder` over bytes in memory, read by
/// `tokio::io::AsyncReadExt`'s `take` and `read_to_end` to its end or to the limit. Such a read
/// never has to wait. Left unsaid is which bytes come out, and how the outcomes for two limits
/// relate.
#[verifier::external_body]
fn read_gzip(input: &[u8], limit: u64) -> (res: Option<Vec<u8>>)
    ensures
        bytes_view(res) == gzip_read(input@, limit),
        res matches Some(out) ==> out@.len() <= limit,
{
    let mut out = Vec::new();
    let mut decoder = GzipDecoder::new(input).take(limit);
    let done = decoder.read_to_end(&mut out).now_or_never();
    match done {
        Some(Ok(_)) => Some(out),
        _ => None,
    }
}

/// `async_compression::tokio::bufread::ZlibDecoder`, read in the same way.
#[verifier::external_body]
fn read_zlib(input: &[u8], limit: u64) -> (res: Option<Vec<u8>>)
    ensures
        bytes_view(res) == zlib_read(input@, limit),
        res matches Some(out) ==> out@.len() <= limit,
{
    let mut out = Vec::new();
    let mut decoder = ZlibDecoder::new(input).take(limit);
    let done = decoder.read_to_end(&mut out).now_or_never();
    match done {
        Some(Ok(_)) => Some(out),
        _ => None,
    }
}

/// `async_compression::tokio::bufread::BrotliDecoder`, read in the same way.
#[verifier::external_body]
fn read_brotli(input: &[u8], limit: u64) -> (res: Option<Vec<u8>>)
    ensures
        bytes_view(res) == brotli_read(input@, limit),
        res matches Some(out) ==> out@.len() <= limit,
{
    let mut out = Vec::new();
    let mut decoder = BrotliDecoder::new(input).take(limit);
    let done = decoder.read_to_end(&mut out).now_or_never();
    match done {
        Some(Ok(_)) => Some(out),
        _ => None,
    }
}

/// `async_compression::tokio::bufread::ZstdDecoder`, read in the same way. A frame that declares a
/// window beyond the decoder's limit can be read all at once, but not in pieces, so a lower limit
/// can make an error of what a higher one reads.
#[verifier::external_body]
fn read_zstd(input: &[u8], limit: u64) -> (res: Option<Vec<u8>>)
    ensures
        bytes_view(res) == zstd_read(input@, limit),
        res matches Some(out) ==> out@.len() <= limit,
{
    let mut out = Vec::new();
    let mut decoder = ZstdDecoder::new(input).take(limit);
    let done = decoder.read_to_end(&mut out).now_or_never();
    match done {
        Some(Ok(_)) => Some(out),
        _ => None,
    }
}

/// Why coded bytes were not read back.
#[derive(Debug, Clone, Copy, PartialEq, Eq, Structural)]
pub enum DecodeError {
    /// There are more bytes than the limit allows.
    LimitExceeded,
    /// The decoder met bytes that the coding does not produce, or too few.
    Malformed,
}

/// What a decoder gives of `input` when at most `limit` bytes are read from it.
pub open spec fn decoder_read(coding: Coding, input: Seq<u8>, limit: u64) -> Option<Seq<u8>> {
    match coding {
        Coding::Identity => Some(input),
        Coding::Gzip => gzip_read(input, limit),
        Coding::Deflate => zlib_read(input, limit),
        Coding::Br => brotli_read(input, limit),
        Coding::Zstd => zstd_read(input, limit),
    }
}

/// The bytes that stand, in full, for coded ones, where there are at most `max_out` of them.
/// `read` is what the decoder gave when asked for one byte more than that.
pub open spec fn within_limit(read: Option<Seq<u8>>, max_out: usize) -> Result<
    Seq<u8>,
    DecodeError,
> {
    match read {
        None => Err(DecodeError::Malformed),
        Some(out) => if out.len() > max_out {
            Err(DecodeError::LimitExceeded)
        } else {
            Ok(out)
        },
    }
}

/// The bytes of a decoded buffer, or the error.
pub open spec fn decoded_view(res: Result<Vec<u8>, DecodeError>) -> Result<Seq<u8>, DecodeError> {
    match res {
        Ok(out) => Ok(out@),
        Err(e) => Err(e),
    }
}

/// Holds what a decoder gave against the limit.
pub fn check_limit(read: Option<Vec<u8>>, max_out: usize) -> (res: Result<Vec<u8>, DecodeError>)
    ensures
        decoded_view(res) == within_limit(bytes_view(read), max_out),
        max_out == usize::MAX ==> res != Err::<Vec<u8>, DecodeError>(DecodeError::LimitExceeded),
{
    match read {
        None => Err(DecodeError::Malformed),
        Some(out) => if out.len() > max_out {
            Err(DecodeError::LimitExceeded)
        } else {
            Ok(out)
        },
    }
}

/// How many bytes are asked of a decoder to find out whether there are more than `max_out`: one
/// more, unless that is more than can be asked for, in which case there never are.
pub open spec fn read_limit(max_out: usize) -> u64 {
    if max_out < u64::MAX {
        (max_out + 1) as u64
    } else {
        u64::MAX
    }
}

/// Reads coded bytes back, all at once, where that gives at most `max_out` bytes. Not more than
/// one byte beyond the limit is ever produced. Bytes without a coding are given back as they are
/// up to the limit, and refused beyond it. The largest limit is never exceeded.
pub fn decode_bytes(coding: Coding, input: &[u8], max_out: usize) -> (res: Result<
    Vec<u8>,
    DecodeError,
>)
    ensures
        decoded_view(res) == within_limit(
            decoder_read(coding, input@, read_limit(max_out)),
            max_out,
        ),
        res matches Ok(out) ==> out@.len() <= max_out,
        max_out == usize::MAX ==> res != Err::<Vec<u8>, DecodeError>(DecodeError::LimitExceeded),
        coding == Coding::Identity ==> decoded_view(res) == (if input@.len() <= max_out {
            Ok(input@)
        } else {
            Err(DecodeError::LimitExceeded)
        }),
{
    let limit: u64 = if (max_out as u64) < u64::MAX {
        max_out as u64 + 1
    } else {
        u64::MAX
    };
    let read = match coding {
        Coding::Identity => {
            if input.len() > max_out {
                return Err(DecodeError::LimitExceeded);
            }
            Some(slice_to_vec(input))
        },
        Coding::Gzip => read_gzip(input, limit),
        Coding::Deflate => read_zlib(input, limit),
        Coding::Br => read_brotli(input, limit),
        Coding::Zstd => read_zstd(input, limit),
    };
    check_limit(read, max_out)
}

} // verus!
