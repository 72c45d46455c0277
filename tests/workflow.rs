use zg_da_client::blob_key::BlobKey;
use zg_da_client::client::{BlobHeader, BlobInfo, BlobStatusReply, PollAction, SubmitAction, ZgDaClient};
use zg_da_client::config::ZgDaConfig;
use zg_da_client::error::DaError;
use zg_da_client::gate::AdmissionGate;

fn client() -> ZgDaClient {
    ZgDaClient::new(ZgDaConfig::new("http://localhost:51001".to_string(), 250, 500))
}

fn confirmed(data_root: Vec<u8>, epoch: u32, quorum_id: u32) -> BlobStatusReply {
    BlobStatusReply {
        status: 2,
        info: Some(BlobInfo { blob_header: Some(BlobHeader { data_root, epoch, quorum_id }) }),
    }
}

#[test]
fn from_config_keeps_settings() {
    let c = ZgDaClient::from(ZgDaConfig::new("http://disperser".to_string(), 11, 22));
    assert_eq!(c.config().url, "http://disperser");
    assert_eq!(c.config().disperser_retry_delay_ms, 11);
    assert_eq!(c.config().status_retry_delay_ms, 22);
    assert_eq!(c.permits_in_flight(), 0);
}

#[test]
fn submit_failure_retries_after_delay() {
    assert!(matches!(client().on_submit_reply(None), SubmitAction::RetryAfter(250)));
}

#[test]
fn submit_success_returns_identifier() {
    match client().on_submit_reply(Some(vec![1, 2])) {
        SubmitAction::Accepted(id) => assert_eq!(id, vec![1, 2]),
        SubmitAction::RetryAfter(_) => panic!("accepted reply was retried"),
    }
}

#[test]
fn publish_survives_transport_failures() {
    let c = client();
    let failures = 5;
    let mut calls = 0;
    let id = loop {
        calls += 1;
        let reply = if calls <= failures { None } else { Some(vec![42, 43]) };
        match c.on_submit_reply(reply) {
            SubmitAction::Accepted(id) => break id,
            SubmitAction::RetryAfter(ms) => assert_eq!(ms, 250),
        }
    };
    assert_eq!(calls, failures + 1);
    let text = ZgDaClient::reference_key(id, &confirmed(vec![7], 3, 1)).unwrap();
    let key = BlobKey::decode(&text).unwrap();
    assert_eq!(key.id(), &vec![42u8, 43]);
    assert_eq!(key.data_root(), &vec![7u8]);
    assert_eq!(key.epoch(), 3);
    assert_eq!(key.quorum_id(), 1);
}

#[test]
fn poll_stops_only_at_confirmation() {
    let c = client();
    let processing = 4;
    let mut queries = 0;
    let record = loop {
        queries += 1;
        let reply = if queries <= processing {
            Some(BlobStatusReply { status: 1, info: None })
        } else {
            Some(confirmed(vec![1], 2, 3))
        };
        match c.on_status_reply(reply) {
            PollAction::Confirmed(r) => break r,
            PollAction::WaitAfter(ms) => assert_eq!(ms, 500),
        }
    };
    assert_eq!(queries, processing + 1);
    assert_eq!(record.status, 2);
}

#[test]
fn poll_waits_on_missing_reply_and_finalized() {
    let c = client();
    assert!(matches!(c.on_status_reply(None), PollAction::WaitAfter(500)));
    let finalized = BlobStatusReply { status: 4, info: None };
    assert!(matches!(c.on_status_reply(Some(finalized)), PollAction::WaitAfter(500)));
    let failed = BlobStatusReply { status: 3, info: None };
    assert!(matches!(c.on_status_reply(Some(failed)), PollAction::WaitAfter(500)));
}

#[test]
fn reference_key_text() {
    let text = ZgDaClient::reference_key(vec![1], &confirmed(vec![2, 3], 4, 5)).unwrap();
    assert_eq!(text, "{\"id\":[1],\"data_root\":[2,3],\"epoch\":4,\"quorum_id\":5}");
}

#[test]
fn reference_key_without_info() {
    let reply = BlobStatusReply { status: 2, info: None };
    assert_eq!(ZgDaClient::reference_key(vec![1], &reply), Err(DaError::ProtocolInvariantViolation));
}

#[test]
fn reference_key_without_header() {
    let reply = BlobStatusReply { status: 2, info: Some(BlobInfo { blob_header: None }) };
    assert_eq!(ZgDaClient::reference_key(vec![1], &reply), Err(DaError::ProtocolInvariantViolation));
}

#[test]
fn state_diff_bytes_concatenates_words() {
    let mut a = [0u8; 32];
    a[31] = 1;
    let mut b = [0u8; 32];
    b[0] = 0xff;
    let data = ZgDaClient::state_diff_bytes(&vec![a, b]);
    assert_eq!(data.len(), 64);
    assert_eq!(data[31], 1);
    assert_eq!(data[32], 0xff);
    assert!(ZgDaClient::state_diff_bytes(&vec![]).is_empty());
}

#[test]
fn gate_admits_at_most_capacity() {
    let capacity = 3;
    let mut gate = AdmissionGate::new(capacity);
    let mut granted = 0;
    for _ in 0..capacity + 1 {
        if gate.try_acquire() {
            granted += 1;
        }
        assert!(gate.in_flight() <= gate.capacity());
    }
    assert_eq!(granted, capacity);
    gate.release();
    assert!(gate.try_acquire());
    assert!(!gate.try_acquire());
}

#[test]
fn client_admits_one_submission_at_a_time() {
    let mut c = client();
    assert!(c.try_admit());
    assert!(!c.try_admit());
    c.finish_submission();
    assert_eq!(c.permits_in_flight(), 0);
    assert!(c.try_admit());
}
