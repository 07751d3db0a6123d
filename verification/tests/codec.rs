use lmdb_qbsdiff::DecodeError;
use lmdb_qbsdiff::RichCodec;
use lmdb_qbsdiff::RichDiff;

#[test]
fn encode_addition_bytes() {
    let out = RichCodec::bytes_encode(&RichDiff::Addition(b"1".to_vec()));
    assert_eq!(out, b"+1".to_vec());
}

#[test]
fn encode_patch_bytes() {
    let out = RichCodec::bytes_encode(&RichDiff::Patch(b"xyz".to_vec()));
    assert_eq!(out, b"~xyz".to_vec());
}

#[test]
fn encode_deletion_bytes() {
    let out = RichCodec::bytes_encode(&RichDiff::Deletion);
    assert_eq!(out, b"-".to_vec());
}

#[test]
fn round_trip_addition() {
    let rec = RichDiff::Addition(b"some value".to_vec());
    let back = RichCodec::bytes_decode(&RichCodec::bytes_encode(&rec)).unwrap();
    assert_eq!(back, rec);
}

#[test]
fn round_trip_empty_addition() {
    let rec = RichDiff::Addition(Vec::new());
    let back = RichCodec::bytes_decode(&RichCodec::bytes_encode(&rec)).unwrap();
    assert_eq!(back, rec);
}

#[test]
fn round_trip_patch() {
    let rec = RichDiff::Patch(vec![0, 1, 2, 255, 45, 43, 126]);
    let back = RichCodec::bytes_decode(&RichCodec::bytes_encode(&rec)).unwrap();
    assert_eq!(back, rec);
}

#[test]
fn round_trip_deletion() {
    let rec = RichDiff::Deletion;
    let back = RichCodec::bytes_decode(&RichCodec::bytes_encode(&rec)).unwrap();
    assert_eq!(back, rec);
}

#[test]
fn decode_empty_is_rejected() {
    assert_eq!(RichCodec::bytes_decode(b""), Err(DecodeError::Empty));
}

#[test]
fn decode_unknown_tag_is_rejected() {
    assert_eq!(RichCodec::bytes_decode(b"x1"), Err(DecodeError::UnknownTag(b'x')));
}

#[test]
fn decode_deletion_payload_is_rejected() {
    assert_eq!(RichCodec::bytes_decode(b"-x"), Err(DecodeError::DeletionPayload));
}

#[test]
fn decode_bare_tags() {
    assert_eq!(RichCodec::bytes_decode(b"+").unwrap(), RichDiff::Addition(Vec::new()));
    assert_eq!(RichCodec::bytes_decode(b"~").unwrap(), RichDiff::Patch(Vec::new()));
    assert_eq!(RichCodec::bytes_decode(b"-").unwrap(), RichDiff::Deletion);
}
