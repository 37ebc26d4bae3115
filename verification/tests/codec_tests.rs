use printnanny_gst::batch::{DetectionBatch, DetectionRecord};
use printnanny_gst::codec::{decode, decode_stream, encode, SerializationError};

fn record(ts: u64, class: i32, score: f32) -> DetectionRecord {
    DetectionRecord {
        ts,
        x0: 0.1f32.to_bits(),
        y0: 0.2f32.to_bits(),
        x1: 0.3f32.to_bits(),
        y1: 0.4f32.to_bits(),
        class,
        score: score.to_bits(),
    }
}

fn sample_batch(ts: u64, n: usize) -> DetectionBatch {
    let mut records = Vec::new();
    for i in 0..n {
        records.push(record(ts + i as u64, (i % 5) as i32, 0.5 + 0.01 * i as f32));
    }
    DetectionBatch { records, rate_n: 15, rate_d: 1 }
}

fn batches_equal(a: &DetectionBatch, b: &DetectionBatch) -> bool {
    a.records == b.records && a.rate_n == b.rate_n && a.rate_d == b.rate_d
}

/// Codec round trip: decoding an encoded batch restores the rows, the
/// cell values and the frame-rate metadata.
#[test]
fn round_trip() {
    let b = sample_batch(1_000_000, 7);
    let bytes = encode(&b).unwrap();
    let back = decode(&bytes).unwrap();
    assert!(batches_equal(&b, &back));
}

/// The empty batch (zero rows) round-trips too, metadata included.
#[test]
fn round_trip_empty() {
    let b = DetectionBatch { records: Vec::new(), rate_n: 30, rate_d: 2 };
    let bytes = encode(&b).unwrap();
    let back = decode(&bytes).unwrap();
    assert!(batches_equal(&b, &back));
    assert_eq!(back.records.len(), 0);
}

/// Concatenated frames read back as the sequence of batches, without a
/// leading count.
#[test]
fn stream_concatenation() {
    let b1 = sample_batch(10, 3);
    let b2 = DetectionBatch { records: Vec::new(), rate_n: 1, rate_d: 1 };
    let b3 = sample_batch(99, 1);
    let mut bytes = encode(&b1).unwrap();
    bytes.extend_from_slice(&encode(&b2).unwrap());
    bytes.extend_from_slice(&encode(&b3).unwrap());
    let back = decode_stream(&bytes).unwrap();
    assert_eq!(back.len(), 3);
    assert!(batches_equal(&b1, &back[0]));
    assert!(batches_equal(&b2, &back[1]));
    assert!(batches_equal(&b3, &back[2]));
}

/// In-memory equivalent of collecting the per-buffer frame files: sixteen
/// batches of forty rows concatenate and read back as 640 rows in all.
#[test]
fn test_dataframe_filesink() {
    let num_detections = 40;
    let expected_buffers = 16;
    let mut bytes: Vec<u8> = Vec::new();
    for i in 0..expected_buffers {
        let b = sample_batch(i as u64 * 1_000, num_detections);
        bytes.extend_from_slice(&encode(&b).unwrap());
    }
    let back = decode_stream(&bytes).unwrap();
    assert_eq!(back.len(), expected_buffers);
    let total: usize = back.iter().map(|b| b.records.len()).sum();
    assert_eq!(total, expected_buffers * num_detections);
}

/// A truncated frame is rejected whole.
#[test]
fn truncated_frame() {
    let b = sample_batch(5, 2);
    let mut bytes = encode(&b).unwrap();
    bytes.pop();
    assert_eq!(decode(&bytes).unwrap_err(), SerializationError::DecodeFailure);
    assert_eq!(decode_stream(&bytes).unwrap_err(), SerializationError::DecodeFailure);
}

/// A frame with a corrupted magic byte is rejected.
#[test]
fn corrupt_magic() {
    let b = sample_batch(5, 2);
    let mut bytes = encode(&b).unwrap();
    bytes[0] ^= 0xFF;
    assert_eq!(decode(&bytes).unwrap_err(), SerializationError::DecodeFailure);
}

/// Trailing garbage after a well-formed frame fails the whole-buffer
/// decode but names the first batch in the stream decode's failure.
#[test]
fn trailing_garbage() {
    let b = sample_batch(5, 2);
    let mut bytes = encode(&b).unwrap();
    bytes.push(0xAB);
    assert_eq!(decode(&bytes).unwrap_err(), SerializationError::DecodeFailure);
    assert_eq!(decode_stream(&bytes).unwrap_err(), SerializationError::DecodeFailure);
}
