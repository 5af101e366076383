//! Decompression of payloads.
use std::io::Write;

use pulsar::codec::{decompress, with_decoded};
use pulsar::error::ConsumerError;
use pulsar::message::{Metadata, Payload};

fn payload(compression: Option<i32>, data: Vec<u8>) -> Payload {
    Payload {
        metadata: Metadata {
            producer_name: "p".to_string(),
            sequence_id: 1,
            publish_time: 2,
            properties: vec![],
            replicated_from: None,
            partition_key: None,
            compression,
            uncompressed_size: None,
            num_messages_in_batch: None,
            event_time: None,
        },
        data,
    }
}

fn text() -> Vec<u8> {
    b"a text that is long enough to be worth compressing, compressing, compressing".to_vec()
}

fn unpack(compression: Option<i32>, data: Vec<u8>) -> Vec<u8> {
    let unpacked = decompress(payload(compression, data)).unwrap().unwrap();
    assert_eq!(unpacked.metadata.compression, compression);
    unpacked.data
}

fn is_corrupt(compression: i32, data: Vec<u8>) -> bool {
    matches!(decompress(payload(Some(compression), data)), Err(ConsumerError::Io(_)))
}

#[test]
fn uncompressed_payloads_stay_as_they_are() {
    assert_eq!(unpack(None, text()), text());
    assert_eq!(unpack(Some(0), text()), text());
}

#[test]
fn lz4_payloads_are_decompressed() {
    let mut encoder = lz4::EncoderBuilder::new().build(Vec::new()).unwrap();
    encoder.write_all(&text()).unwrap();
    let (packed, result) = encoder.finish();
    result.unwrap();
    assert_ne!(packed, text());
    assert_eq!(unpack(Some(1), packed), text());
    assert!(is_corrupt(1, text()));
}

#[test]
fn zlib_payloads_are_decompressed() {
    let mut encoder =
        flate2::write::ZlibEncoder::new(Vec::new(), flate2::Compression::default());
    encoder.write_all(&text()).unwrap();
    let packed = encoder.finish().unwrap();
    assert_ne!(packed, text());
    assert_eq!(unpack(Some(2), packed), text());
    assert!(is_corrupt(2, text()));
}

#[test]
fn zstd_payloads_are_decompressed() {
    let packed = zstd::encode_all(&text()[..], 0).unwrap();
    assert_ne!(packed, text());
    assert_eq!(unpack(Some(3), packed), text());
    assert!(is_corrupt(3, text()));
}

#[test]
fn snappy_payloads_are_decompressed() {
    let mut encoder = snap::write::FrameEncoder::new(Vec::new());
    encoder.write_all(&text()).unwrap();
    let packed = encoder.into_inner().unwrap();
    assert_ne!(packed, text());
    assert_eq!(unpack(Some(4), packed), text());
    assert!(is_corrupt(4, text()));
}

#[test]
fn unknown_compressions_are_told_apart() {
    assert!(decompress(payload(Some(5), text())).unwrap().is_none());
    assert!(decompress(payload(Some(-1), text())).unwrap().is_none());
}

#[test]
fn decoded_bytes_replace_the_data() {
    let replaced = with_decoded(payload(Some(2), vec![1, 2]), Ok(vec![3])).unwrap();
    assert_eq!(replaced, payload(Some(2), vec![3]));
    let error = std::io::Error::new(std::io::ErrorKind::Other, "broken");
    match with_decoded(payload(Some(2), vec![1, 2]), Err(error)) {
        Err(ConsumerError::Io(e)) => assert_eq!(e.to_string(), "broken"),
        _ => panic!("an error was expected"),
    }
}
