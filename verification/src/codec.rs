//! Decompression of payloads.
use std::io::Read;

use crate::error::ConsumerError;
use crate::message::{Payload, PayloadView};
use vstd::prelude::*;

verus! {

/// What `lz4::Decoder` makes of `data`: the decompressed bytes, or `None` where it fails.
pub uninterp spec fn lz4_decoded(data: Seq<u8>) -> Option<Seq<u8>>;

/// What `flate2::read::ZlibDecoder` makes of `data`: the decompressed bytes, or `None` where it
/// fails.
pub uninterp spec fn zlib_decoded(data: Seq<u8>) -> Option<Seq<u8>>;

/// What `zstd::decode_all` makes of `data`: the decompressed bytes, or `None` where it fails.
pub uninterp spec fn zstd_decoded(data: Seq<u8>) -> Option<Seq<u8>>;

/// What `snap::read::FrameDecoder` makes of `data`: the decompressed bytes, or `None` where it
/// fails.
pub uninterp spec fn snappy_decoded(data: Seq<u8>) -> Option<Seq<u8>>;

/// Reads an `lz4::Decoder` over `data` to its end. Whether that succeeds, and which bytes come
/// out, depends on `data` alone; memory for the decoder is taken to be there. Which error a failure
/// brings is left unsaid.
#[verifier::external_body]
fn lz4_decode(data: &Vec<u8>) -> (r: Result<Vec<u8>, std::io::Error>)
    ensures
        match r {
            Ok(bytes) => lz4_decoded(data@) == Some(bytes@),
            Err(_) => lz4_decoded(data@) is None,
        },
{
    let mut decompressed = Vec::new();
    let mut decoder = lz4::Decoder::new(&data[..])?;
    decoder.read_to_end(&mut decompressed)?;
    Ok(decompressed)
}

/// Reads a `flate2::read::ZlibDecoder` over `data` to its end. Whether that succeeds, and which
/// bytes come out, depends on `data` alone. Which error a failure brings is left unsaid.
#[verifier::external_body]
fn zlib_decode(data: &Vec<u8>) -> (r: Result<Vec<u8>, std::io::Error>)
    ensures
        match r {
            Ok(bytes) => zlib_decoded(data@) == Some(bytes@),
            Err(_) => zlib_decoded(data@) is None,
        },
{
    let mut decompressed = Vec::new();
    let mut decoder = flate2::read::ZlibDecoder::new(&data[..]);
    decoder.read_to_end(&mut decompressed)?;
    Ok(decompressed)
}

/// `zstd::decode_all` on `data`. Whether it succeeds, and which bytes come out, depends on
/// `data` alone; memory for the decoder is taken to be there. Which error a failure brings is left
/// unsaid.
#[verifier::external_body]
fn zstd_decode(data: &Vec<u8>) -> (r: Result<Vec<u8>, std::io::Error>)
    ensures
        match r {
            Ok(bytes) => zstd_decoded(data@) == Some(bytes@),
            Err(_) => zstd_decoded(data@) is None,
        },
{
    zstd::decode_all(&data[..])
}

/// Reads a `snap::read::FrameDecoder` over `data` to its end. Whether that succeeds, and which
/// bytes come out, depends on `data` alone. Which error a failure brings is left unsaid.
#[verifier::external_body]
fn snappy_decode(data: &Vec<u8>) -> (r: Result<Vec<u8>, std::io::Error>)
    ensures
        match r {
            Ok(bytes) => snappy_decoded(data@) == Some(bytes@),
            Err(_) => snappy_decoded(data@) is None,
        },
{
    let mut decompressed = Vec::new();
    let mut decoder = snap::read::FrameDecoder::new(&data[..]);
    decoder.read_to_end(&mut decompressed)?;
    Ok(decompressed)
}

/// What becomes of a payload before it is delivered.
#[verifier::ext_equal]
pub enum Unpacked {
    /// The payload that is delivered.
    Plain(PayloadView),
    /// The decoder of its compression failed.
    Corrupt,
    /// No decoder is known for its compression.
    Unknown,
}

/// `payload` with the bytes that its decoder made of its data.
pub open spec fn decoded(payload: PayloadView, bytes: Option<Seq<u8>>) -> Unpacked {
    match bytes {
        Some(data) => Unpacked::Plain(PayloadView { data, ..payload }),
        None => Unpacked::Corrupt,
    }
}

/// `payload` without its compression. The metadata, and with it the compression that it names,
/// stays as it is.
pub open spec fn unpacked(payload: PayloadView) -> Unpacked {
    match payload.metadata.compression {
        None => Unpacked::Plain(payload),
        Some(0) => Unpacked::Plain(payload),
        Some(1) => decoded(payload, lz4_decoded(payload.data)),
        Some(2) => decoded(payload, zlib_decoded(payload.data)),
        Some(3) => decoded(payload, zstd_decoded(payload.data)),
        Some(4) => decoded(payload, snappy_decoded(payload.data)),
        Some(_) => Unpacked::Unknown,
    }
}

/// The decoder of a compression failed on `data` with `error`.
pub closed spec fn failed_with(compression: i32, data: Seq<u8>, error: std::io::Error) -> bool {
    exists|bytes: Vec<u8>|
        bytes@ == data && #[trigger] decoder_answers(compression, bytes, Err(error))
}

/// The decoder of a compression answered `answer` on `bytes`.
spec fn decoder_answers(
    compression: i32,
    bytes: Vec<u8>,
    answer: Result<Vec<u8>, std::io::Error>,
) -> bool {
    match compression {
        1 => call_ensures(lz4_decode, (&bytes,), answer),
        2 => call_ensures(zlib_decode, (&bytes,), answer),
        3 => call_ensures(zstd_decode, (&bytes,), answer),
        4 => call_ensures(snappy_decode, (&bytes,), answer),
        _ => false,
    }
}

/// Puts what a decoder returned in the place of the payload's data.
pub fn with_decoded(payload: Payload, bytes: Result<Vec<u8>, std::io::Error>) -> (r: Result<
    Payload,
    ConsumerError,
>)
    ensures
        match bytes {
            Ok(data) => r matches Ok(p) && p.metadata == payload.metadata && p.data == data,
            Err(e) => r == Err::<Payload, ConsumerError>(ConsumerError::Io(e)),
        },
{
    match bytes {
        Ok(data) => Ok(Payload { metadata: payload.metadata, data }),
        Err(e) => Err(ConsumerError::Io(e)),
    }
}

/// Decompresses a payload. `Ok(None)` says that its compression is unknown.
pub fn decompress(payload: Payload) -> (r: Result<Option<Payload>, ConsumerError>)
    ensures
        match payload.metadata.compression {
            None => r matches Ok(Some(q)) && q.data@ == payload.data@ && q.metadata@
                == payload.metadata@,
            Some(code) => match code {
                0 => r matches Ok(Some(q)) && q.data@ == payload.data@ && q.metadata@
                    == payload.metadata@,
                1 => match lz4_decoded(payload.data@) {
                    Some(bytes) => r matches Ok(Some(q)) && q.data@ == bytes && q.metadata@
                        == payload.metadata@,
                    None => r matches Err(ConsumerError::Io(_)),
                },
                2 => match zlib_decoded(payload.data@) {
                    Some(bytes) => r matches Ok(Some(q)) && q.data@ == bytes && q.metadata@
                        == payload.metadata@,
                    None => r matches Err(ConsumerError::Io(_)),
                },
                3 => match zstd_decoded(payload.data@) {
                    Some(bytes) => r matches Ok(Some(q)) && q.data@ == bytes && q.metadata@
                        == payload.metadata@,
                    None => r matches Err(ConsumerError::Io(_)),
                },
                4 => match snappy_decoded(payload.data@) {
                    Some(bytes) => r matches Ok(Some(q)) && q.data@ == bytes && q.metadata@
                        == payload.metadata@,
                    None => r matches Err(ConsumerError::Io(_)),
                },
                _ => r matches Ok(None),
            },
        },
        match unpacked(payload@) {
            Unpacked::Plain(p) => r matches Ok(Some(q)) && q@ == p,
            Unpacked::Corrupt => r matches Err(ConsumerError::Io(e)) && failed_with(
                payload.metadata.compression->0,
                payload.data@,
                e,
            ),
            Unpacked::Unknown => r matches Ok(None),
        },
{
    let bytes = match payload.metadata.compression {
        None | Some(0) => {
            return Ok(Some(payload));
        },
        Some(1) => lz4_decode(&payload.data),
        Some(2) => zlib_decode(&payload.data),
        Some(3) => zstd_decode(&payload.data),
        Some(4) => snappy_decode(&payload.data),
        Some(_) => {
            return Ok(None);
        },
    };
    assert(decoder_answers(payload.metadata.compression->0, payload.data, bytes));
    match with_decoded(payload, bytes) {
        Ok(payload) => Ok(Some(payload)),
        Err(e) => Err(e),
    }
}

/// The compression that its metadata names, and nothing else of its metadata, decides what becomes
/// of a payload: the decoder of that compression is asked to decode its data, and what it makes of
/// them takes their place.
pub proof fn compression_alone_chooses_the_decoder(payload: PayloadView, bytes: Seq<u8>)
    ensures
        payload.metadata.compression is None || payload.metadata.compression == Some(0i32)
            ==> unpacked(payload) == Unpacked::Plain(payload),
        payload.metadata.compression == Some(1i32) && lz4_decoded(payload.data) == Some(bytes)
            ==> unpacked(payload) == Unpacked::Plain(
            PayloadView { metadata: payload.metadata, data: bytes },
        ),
        payload.metadata.compression == Some(2i32) && zlib_decoded(payload.data) == Some(bytes)
            ==> unpacked(payload) == Unpacked::Plain(
            PayloadView { metadata: payload.metadata, data: bytes },
        ),
        payload.metadata.compression == Some(3i32) && zstd_decoded(payload.data) == Some(bytes)
            ==> unpacked(payload) == Unpacked::Plain(
            PayloadView { metadata: payload.metadata, data: bytes },
        ),
        payload.metadata.compression == Some(4i32) && snappy_decoded(payload.data) == Some(bytes)
            ==> unpacked(payload) == Unpacked::Plain(
            PayloadView { metadata: payload.metadata, data: bytes },
        ),
        payload.metadata.compression == Some(1i32) && lz4_decoded(payload.data) is None
            ==> unpacked(payload) == Unpacked::Corrupt,
        payload.metadata.compression == Some(2i32) && zlib_decoded(payload.data) is None
            ==> unpacked(payload) == Unpacked::Corrupt,
        payload.metadata.compression == Some(3i32) && zstd_decoded(payload.data) is None
            ==> unpacked(payload) == Unpacked::Corrupt,
        payload.metadata.compression == Some(4i32) && snappy_decoded(payload.data) is None
            ==> unpacked(payload) == Unpacked::Corrupt,
        payload.metadata.compression is Some && !(0 <= payload.metadata.compression->0 <= 4)
            ==> unpacked(payload) == Unpacked::Unknown,
{
}

/// Two payloads with the same compression and the same data are unpacked to the same data, however
/// the rest of their metadata differs.
pub proof fn other_metadata_does_not_matter(a: PayloadView, b: PayloadView)
    requires
        a.metadata.compression == b.metadata.compression,
        a.data == b.data,
    ensures
        match (unpacked(a), unpacked(b)) {
            (Unpacked::Plain(p), Unpacked::Plain(q)) => {
                &&& p.data == q.data
                &&& p.metadata == a.metadata
                &&& q.metadata == b.metadata
            },
            (Unpacked::Corrupt, Unpacked::Corrupt) => true,
            (Unpacked::Unknown, Unpacked::Unknown) => true,
            _ => false,
        },
{
}

} // verus!
