use zg_da_client::client::ZgDaClient;
use zg_da_client::error::DaError;
use zg_da_client::blob_key::BlobKey;
use zg_da_client::status::{classify_status, DaVerificationStatus};

#[test]
fn confirmed_is_verified() {
    assert_eq!(classify_status(Some(2)), DaVerificationStatus::Verified);
}

#[test]
fn finalized_is_verified() {
    assert_eq!(classify_status(Some(4)), DaVerificationStatus::Verified);
}

#[test]
fn processing_is_pending() {
    assert_eq!(classify_status(Some(1)), DaVerificationStatus::Pending);
}

#[test]
fn other_statuses_are_rejected() {
    for code in [0, 3, 5, 6, -1, 1000] {
        assert_eq!(classify_status(Some(code)), DaVerificationStatus::Rejected);
    }
}

#[test]
fn absent_status_is_rejected() {
    assert_eq!(classify_status(None), DaVerificationStatus::Rejected);
}

#[test]
fn verification_request_reads_the_identifier() {
    let text = BlobKey::new(vec![9, 8, 7], vec![1], 2, 3).encode();
    assert_eq!(ZgDaClient::verification_request(&text), Ok(vec![9u8, 8, 7]));
}

#[test]
fn verification_request_rejects_malformed_key() {
    assert_eq!(ZgDaClient::verification_request("not-a-key"), Err(DaError::MalformedReferenceKey));
}

#[test]
fn verify_twice_gives_the_same_outcome() {
    let text = BlobKey::new(vec![4, 4], vec![5], 6, 1).encode();
    let status = Some(1);
    let first = ZgDaClient::verification_request(&text).map(|_| classify_status(status));
    let second = ZgDaClient::verification_request(&text).map(|_| classify_status(status));
    assert_eq!(first, second);
    assert_eq!(first, Ok(DaVerificationStatus::Pending));
}
