//! Content codings.

use async_compression::tokio::bufread::{BrotliEncoder, GzipEncoder, ZlibEncoder, ZstdEncoder};
use futures_util::FutureExt;
use http::header::{HeaderMap, HeaderValue, CONTENT_ENCODING};
use keep_sse::encoding::{
    check_limit, decode_bytes, parse_content_encoding, Coding, DecodeError,
};
use std::io::Write;
use tokio::io::AsyncReadExt;

fn encode_once(coding: Coding, input: &[u8]) -> Vec<u8> {
    let mut out = Vec::new();
    let done = match coding {
        Coding::Identity => {
            out.extend_from_slice(input);
            return out;
        }
        Coding::Gzip => GzipEncoder::new(input)
            .read_to_end(&mut out)
            .now_or_never(),
        Coding::Deflate => ZlibEncoder::new(input)
            .read_to_end(&mut out)
            .now_or_never(),
        Coding::Br => BrotliEncoder::new(input)
            .read_to_end(&mut out)
            .now_or_never(),
        Coding::Zstd => ZstdEncoder::new(input)
            .read_to_end(&mut out)
            .now_or_never(),
    };
    done.unwrap().unwrap();
    out
}

fn declaring(value: &'static str) -> HeaderMap {
    let mut headers = HeaderMap::new();
    headers.insert(CONTENT_ENCODING, HeaderValue::from_static(value));
    headers
}

#[test]
fn parse_single_and_chained() {
    assert_eq!(parse_content_encoding(&declaring("gzip")), Some(Coding::Gzip));
    assert_eq!(parse_content_encoding(&declaring("br")), Some(Coding::Br));
    assert_eq!(parse_content_encoding(&declaring("gzip, deflate")), None);
    assert_eq!(parse_content_encoding(&declaring("snappy")), None);
    assert_eq!(
        parse_content_encoding(&HeaderMap::new()),
        Some(Coding::Identity)
    );
    let mut headers = HeaderMap::new();
    headers.append(CONTENT_ENCODING, HeaderValue::from_static("gzip"));
    headers.append(CONTENT_ENCODING, HeaderValue::from_static("br"));
    assert_eq!(parse_content_encoding(&headers), None);
}

#[test]
fn roundtrip_all_codings() {
    let payload = b"the quick brown fox jumps over the lazy dog ".repeat(20);
    for coding in [Coding::Gzip, Coding::Deflate, Coding::Br, Coding::Zstd] {
        let compressed = encode_once(coding, &payload);
        assert_ne!(compressed, payload);
        let decoded = decode_bytes(coding, &compressed, payload.len()).unwrap();
        assert_eq!(decoded, payload, "roundtrip failed for {:?}", coding);
    }
}

#[test]
fn decode_bytes_exactly_at_limit_passes() {
    let payload = b"x".repeat(256);
    let compressed = encode_once(Coding::Gzip, &payload);
    let decoded = decode_bytes(Coding::Gzip, &compressed, 256).unwrap();
    assert_eq!(decoded, payload);
}

#[test]
fn decode_bytes_one_byte_over_errors() {
    let payload = b"x".repeat(256);
    let compressed = encode_once(Coding::Gzip, &payload);
    let err = decode_bytes(Coding::Gzip, &compressed, 255).unwrap_err();
    assert_eq!(err, DecodeError::LimitExceeded);
}

#[test]
fn decode_bytes_identity_limit() {
    let payload = b"x".repeat(10);
    assert_eq!(
        decode_bytes(Coding::Identity, &payload, 10).unwrap(),
        payload
    );
    assert!(decode_bytes(Coding::Identity, &payload, 9).is_err());
}

#[test]
fn every_coding_keeps_to_the_limit() {
    let payload = b"keep alive ".repeat(500);
    for coding in [Coding::Gzip, Coding::Deflate, Coding::Br, Coding::Zstd] {
        let compressed = encode_once(coding, &payload);
        assert_eq!(
            decode_bytes(coding, &compressed, payload.len() - 1),
            Err(DecodeError::LimitExceeded)
        );
        assert_eq!(
            decode_bytes(coding, &compressed, 0),
            Err(DecodeError::LimitExceeded)
        );
    }
}

#[test]
fn the_largest_limit_is_never_exceeded() {
    assert_eq!(
        decode_bytes(Coding::Identity, b"hi", usize::MAX).unwrap(),
        b"hi"
    );
    for coding in [Coding::Gzip, Coding::Deflate, Coding::Br, Coding::Zstd] {
        let compressed = encode_once(coding, b"hi");
        assert_eq!(decode_bytes(coding, &compressed, usize::MAX).unwrap(), b"hi");
        assert_eq!(
            decode_bytes(coding, &compressed, usize::MAX - 1).unwrap(),
            b"hi"
        );
    }
}

#[test]
fn every_coding_passes_exactly_at_the_limit() {
    for coding in [
        Coding::Identity,
        Coding::Gzip,
        Coding::Deflate,
        Coding::Br,
        Coding::Zstd,
    ] {
        for length in [0usize, 1, 31, 32, 33, 1000, 70000] {
            let payload: Vec<u8> = (0..length).map(|i| (i % 251) as u8).collect();
            let compressed = encode_once(coding, &payload);
            assert_eq!(decode_bytes(coding, &compressed, length).unwrap(), payload);
            if length > 0 {
                assert_eq!(
                    decode_bytes(coding, &compressed, length - 1),
                    Err(DecodeError::LimitExceeded)
                );
            }
        }
    }
}

#[test]
fn bytes_that_are_not_coded_are_malformed() {
    for coding in [Coding::Gzip, Coding::Deflate, Coding::Br, Coding::Zstd] {
        assert_eq!(
            decode_bytes(coding, b"this is plain text, not coded at all", 1000),
            Err(DecodeError::Malformed)
        );
    }
}

#[test]
fn cut_off_bytes_are_malformed() {
    let compressed = encode_once(Coding::Gzip, &b"abc".repeat(100));
    assert_eq!(
        decode_bytes(Coding::Gzip, &compressed[..compressed.len() - 4], 1000),
        Err(DecodeError::Malformed)
    );
}

#[test]
fn gzip_of_another_maker_is_read() {
    let mut encoder =
        flate2::write::GzEncoder::new(Vec::new(), flate2::Compression::default());
    encoder.write_all(b"{\"model\":\"x\",\"stream\":true}").unwrap();
    let compressed = encoder.finish().unwrap();
    assert_eq!(
        decode_bytes(Coding::Gzip, &compressed, 100).unwrap(),
        b"{\"model\":\"x\",\"stream\":true}"
    );
}

#[test]
fn names_of_codings() {
    assert_eq!(Coding::parse("identity"), Some(Coding::Identity));
    assert_eq!(Coding::parse("IDENTITY"), Some(Coding::Identity));
    assert_eq!(Coding::parse("GZip"), Some(Coding::Gzip));
    assert_eq!(Coding::parse("x-gzip"), Some(Coding::Gzip));
    assert_eq!(Coding::parse("deflate"), Some(Coding::Deflate));
    assert_eq!(Coding::parse("Br"), Some(Coding::Br));
    assert_eq!(Coding::parse("zstd"), Some(Coding::Zstd));
    assert_eq!(Coding::parse(""), None);
    assert_eq!(Coding::parse("gzip "), None);
    assert_eq!(Coding::parse("compress"), None);
}

#[test]
fn lists_of_codings() {
    assert_eq!(
        parse_content_encoding(&declaring(" , gzip ,")),
        Some(Coding::Gzip)
    );
    assert_eq!(
        parse_content_encoding(&declaring("Identity")),
        Some(Coding::Identity)
    );
    assert_eq!(parse_content_encoding(&declaring("")), None);
    assert_eq!(parse_content_encoding(&declaring(",")), None);
    assert_eq!(parse_content_encoding(&declaring("gzip, gzip")), None);
    let mut headers = HeaderMap::new();
    headers.insert(
        CONTENT_ENCODING,
        HeaderValue::from_bytes(b"gzip\xe9").unwrap(),
    );
    assert_eq!(parse_content_encoding(&headers), None);
}

#[test]
fn limits_are_held_against_what_was_read() {
    assert_eq!(check_limit(None, 5), Err(DecodeError::Malformed));
    assert_eq!(
        check_limit(Some(b"123456".to_vec()), 5),
        Err(DecodeError::LimitExceeded)
    );
    assert_eq!(
        check_limit(Some(b"12345".to_vec()), 5),
        Ok(b"12345".to_vec())
    );
    assert_eq!(check_limit(Some(Vec::new()), 0), Ok(Vec::new()));
}
