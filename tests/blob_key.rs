use zg_da_client::blob_key::BlobKey;
use zg_da_client::error::DaError;

fn sample() -> BlobKey {
    BlobKey::new(vec![1, 2, 3], vec![255, 0, 17], 7, 0)
}

#[test]
fn encode_writes_fields_in_order() {
    assert_eq!(sample().encode(), "{\"id\":[1,2,3],\"data_root\":[255,0,17],\"epoch\":7,\"quorum_id\":0}");
}

#[test]
fn encode_empty_sequences() {
    let k = BlobKey::new(vec![], vec![], 0, 0);
    assert_eq!(k.encode(), "{\"id\":[],\"data_root\":[],\"epoch\":0,\"quorum_id\":0}");
}

#[test]
fn encode_is_valid_json_with_the_fields() {
    let text = sample().encode();
    let v: serde_json::Value = serde_json::from_str(&text).unwrap();
    assert_eq!(v["epoch"].as_u64(), Some(7));
    assert_eq!(v["quorum_id"].as_u64(), Some(0));
    assert_eq!(v["id"].as_array().unwrap().len(), 3);
    assert_eq!(v["data_root"][0].as_u64(), Some(255));
}

#[test]
fn round_trip_sample() {
    let k = sample();
    let back = BlobKey::decode(&k.encode()).unwrap();
    assert_eq!(back.id(), k.id());
    assert_eq!(back.data_root(), k.data_root());
    assert_eq!(back.epoch(), k.epoch());
    assert_eq!(back.quorum_id(), k.quorum_id());
}

#[test]
fn round_trip_largest_numbers() {
    let k = BlobKey::new(vec![255; 40], vec![0, 9, 10, 99, 100, 200], u32::MAX, u32::MAX);
    let text = k.encode();
    assert!(text.contains("4294967295"));
    let back = BlobKey::decode(&text).unwrap();
    assert_eq!(back.id(), &vec![255u8; 40]);
    assert_eq!(back.data_root(), &vec![0u8, 9, 10, 99, 100, 200]);
    assert_eq!(back.epoch(), u32::MAX);
    assert_eq!(back.quorum_id(), u32::MAX);
}

#[test]
fn round_trip_empty() {
    let k = BlobKey::new(vec![], vec![], 0, 0);
    let back = BlobKey::decode(&k.encode()).unwrap();
    assert!(back.id().is_empty());
    assert!(back.data_root().is_empty());
}

#[test]
fn decode_not_a_key() {
    assert!(matches!(BlobKey::decode("not-a-key"), Err(DaError::MalformedReferenceKey)));
}

#[test]
fn decode_empty_text() {
    assert!(matches!(BlobKey::decode(""), Err(DaError::MalformedReferenceKey)));
}

#[test]
fn decode_rejects_missing_field() {
    let text = "{\"id\":[1],\"data_root\":[2],\"epoch\":3}";
    assert!(matches!(BlobKey::decode(text), Err(DaError::MalformedReferenceKey)));
}

#[test]
fn decode_rejects_byte_out_of_range() {
    let text = "{\"id\":[256],\"data_root\":[2],\"epoch\":3,\"quorum_id\":4}";
    assert!(matches!(BlobKey::decode(text), Err(DaError::MalformedReferenceKey)));
}

#[test]
fn decode_rejects_epoch_out_of_range() {
    let text = "{\"id\":[1],\"data_root\":[2],\"epoch\":4294967296,\"quorum_id\":4}";
    assert!(matches!(BlobKey::decode(text), Err(DaError::MalformedReferenceKey)));
}

#[test]
fn decode_rejects_leading_zero() {
    let text = "{\"id\":[01],\"data_root\":[2],\"epoch\":3,\"quorum_id\":4}";
    assert!(matches!(BlobKey::decode(text), Err(DaError::MalformedReferenceKey)));
}

#[test]
fn decode_rejects_trailing_text() {
    let text = "{\"id\":[1],\"data_root\":[2],\"epoch\":3,\"quorum_id\":4} ";
    assert!(matches!(BlobKey::decode(text), Err(DaError::MalformedReferenceKey)));
}

#[test]
fn decode_rejects_trailing_comma_in_list() {
    let text = "{\"id\":[1,],\"data_root\":[2],\"epoch\":3,\"quorum_id\":4}";
    assert!(matches!(BlobKey::decode(text), Err(DaError::MalformedReferenceKey)));
}

#[test]
fn decode_reads_given_text() {
    let text = "{\"id\":[10,20],\"data_root\":[],\"epoch\":12,\"quorum_id\":3}";
    let k = BlobKey::decode(text).unwrap();
    assert_eq!(k.id(), &vec![10u8, 20]);
    assert!(k.data_root().is_empty());
    assert_eq!(k.epoch(), 12);
    assert_eq!(k.quorum_id(), 3);
}
