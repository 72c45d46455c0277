use vstd::prelude::*;

use crate::blob_key::{is_key_text, key_text, lemma_key_text_injective, BlobKey, KeyFields};
use crate::config::ZgDaConfig;
use crate::error::DaError;
use crate::gate::AdmissionGate;
use crate::status::{STATUS_CONFIRMED, STATUS_PROCESSING};

verus! {

/// Routing metadata the service assigns to a confirmed blob.
#[derive(Clone, Debug)]
pub struct BlobHeader {
    pub data_root: Vec<u8>,
    pub epoch: u32,
    pub quorum_id: u32,
}

#[derive(Clone, Debug)]
pub struct BlobInfo {
    pub blob_header: Option<BlobHeader>,
}

/// Answer of the service to a status query.
#[derive(Clone, Debug)]
pub struct BlobStatusReply {
    pub status: i32,
    pub info: Option<BlobInfo>,
}

/// What the submitter does after one submission attempt.
#[derive(Debug)]
pub enum SubmitAction {
    /// The service took the blob under this request identifier.
    Accepted(Vec<u8>),
    /// Send the same blob again after this many milliseconds.
    RetryAfter(u32),
}

/// What the confirmation poller does after one status query.
#[derive(Debug)]
pub enum PollAction {
    /// The blob is confirmed; this is the record the service returned.
    Confirmed(BlobStatusReply),
    /// Query again after this many milliseconds.
    WaitAfter(u32),
}

/// Decision after a submission attempt; `None` is a transport failure.
pub open spec fn submit_action(delay: u32, reply: Option<Vec<u8>>) -> SubmitAction {
    match reply {
        Some(id) => SubmitAction::Accepted(id),
        None => SubmitAction::RetryAfter(delay),
    }
}

/// Decision after a status query; `None` is a query that brought no reply.
pub open spec fn poll_action(delay: u32, reply: Option<BlobStatusReply>) -> PollAction {
    match reply {
        Some(r) => if r.status == STATUS_CONFIRMED {
            PollAction::Confirmed(r)
        } else {
            PollAction::WaitAfter(delay)
        },
        None => PollAction::WaitAfter(delay),
    }
}

/// The header of a confirmation record, where it has one.
pub open spec fn header_of(reply: BlobStatusReply) -> Option<BlobHeader> {
    match reply.info {
        Some(info) => info.blob_header,
        None => None,
    }
}

/// The reference key that a confirmation with header `h` yields for request `id`.
pub open spec fn key_for(id: Seq<u8>, h: BlobHeader) -> KeyFields {
    KeyFields { id, data_root: h.data_root@, epoch: h.epoch, quorum_id: h.quorum_id }
}

/// Bytes of a sequence of 32-byte words, one after the other.
pub open spec fn joined(words: Seq<[u8; 32]>) -> Seq<u8>
    decreases words.len(),
{
    if words.len() == 0 {
        Seq::empty()
    } else {
        joined(words.drop_last()) + words.last()@
    }
}

/// Client of a data-availability disperser. It holds the decisions of the
/// publish and verify workflows; the transport is driven by its owner.
pub struct ZgDaClient {
    config: ZgDaConfig,
    disperser_permits: AdmissionGate,
}

impl ZgDaClient {
    pub closed spec fn config_spec(&self) -> ZgDaConfig {
        self.config
    }

    pub closed spec fn permits(&self) -> AdmissionGate {
        self.disperser_permits
    }

    pub open spec fn wf(&self) -> bool {
        self.permits().wf()
    }

    /// A client built from `config` that holds no permit yet.
    pub closed spec fn fresh(config: ZgDaConfig) -> ZgDaClient {
        ZgDaClient { config, disperser_permits: AdmissionGate::fresh(1) }
    }

    /// A client that admits one submission at a time.
    pub fn new(config: ZgDaConfig) -> (r: ZgDaClient)
        ensures
            r.wf(),
            r.config_spec() == config,
            r.permits().capacity_spec() == 1,
            r.permits().in_flight_spec() == 0,
            r == ZgDaClient::fresh(config),
    {
        ZgDaClient { config, disperser_permits: AdmissionGate::new(1) }
    }

    pub fn config(&self) -> (r: &ZgDaConfig)
        ensures
            *r == self.config_spec(),
    {
        &self.config
    }

    pub fn permits_in_flight(&self) -> (r: usize)
        ensures
            r == self.permits().in_flight_spec(),
    {
        self.disperser_permits.in_flight()
    }

    /// Takes a submission permit when fewer than the capacity are held.
    pub fn try_admit(&mut self) -> (granted: bool)
        requires
            old(self).wf(),
        ensures
            final(self).wf(),
            final(self).config_spec() == old(self).config_spec(),
            granted == (old(self).permits().in_flight_spec() < old(self).permits().capacity_spec()),
            final(self).permits().capacity_spec() == old(self).permits().capacity_spec(),
            final(self).permits().in_flight_spec() == old(self).permits().in_flight_spec() + if granted {
                1nat
            } else {
                0nat
            },
    {
        self.disperser_permits.try_acquire()
    }

    /// Gives back the permit of a finished submission.
    pub fn finish_submission(&mut self)
        requires
            old(self).wf(),
            old(self).permits().in_flight_spec() > 0,
        ensures
            final(self).wf(),
            final(self).config_spec() == old(self).config_spec(),
            final(self).permits().capacity_spec() == old(self).permits().capacity_spec(),
            final(self).permits().in_flight_spec() == old(self).permits().in_flight_spec() - 1,
    {
        self.disperser_permits.release()
    }

    /// Decides what follows one submission attempt: its request identifier
    /// ends the submission, a transport failure (`None`) is retried after the
    /// configured delay, however often it comes.
    pub fn on_submit_reply(&self, reply: Option<Vec<u8>>) -> (r: SubmitAction)
        ensures
            r == submit_action(self.config_spec().disperser_retry_delay_ms, reply),
    {
        match reply {
            Some(id) => SubmitAction::Accepted(id),
            None => SubmitAction::RetryAfter(self.config.disperser_retry_delay_ms),
        }
    }

    /// Decides what follows one status query: only a confirmed status ends the
    /// wait; any other status, or no reply, is queried again after the delay.
    pub fn on_status_reply(&self, reply: Option<BlobStatusReply>) -> (r: PollAction)
        ensures
            r == poll_action(self.config_spec().status_retry_delay_ms, reply),
    {
        match reply {
            Some(rep) => if rep.status == STATUS_CONFIRMED {
                PollAction::Confirmed(rep)
            } else {
                PollAction::WaitAfter(self.config.status_retry_delay_ms)
            },
            None => PollAction::WaitAfter(self.config.status_retry_delay_ms),
        }
    }

    /// The payload of a state diff: each field element's 32 big-endian bytes in turn.
    pub fn state_diff_bytes(words: &Vec<[u8; 32]>) -> (r: Vec<u8>)
        ensures
            r@ == joined(words@),
    {
        let mut data: Vec<u8> = Vec::new();
        let mut i: usize = 0;
        while i < words.len()
            invariant
                i <= words.len(),
                data@ == joined(words@.subrange(0, i as int)),
            decreases words.len() - i,
        {
            let w = words[i];
            let ghost before = data@;
            let mut j: usize = 0;
            while j < 32
                invariant
                    j <= 32,
                    data@ == before + w@.subrange(0, j as int),
                decreases 32 - j,
            {
                data.push(w[j]);
                assert(data@ =~= before + w@.subrange(0, j + 1));
                j = j + 1;
            }
            assert(words@.subrange(0, i + 1).drop_last() =~= words@.subrange(0, i as int));
            assert(w@.subrange(0, 32) =~= w@);
            i = i + 1;
        }
        assert(words@.subrange(0, words.len() as int) =~= words@);
        data
    }

    /// The reference key text of a confirmed submission. A confirmation
    /// record without a blob header yields no key.
    pub fn reference_key(id: Vec<u8>, confirmation: &BlobStatusReply) -> (r: Result<String, DaError>)
        ensures
            match header_of(*confirmation) {
                Some(h) => r matches Ok(s) && s@ == key_text(key_for(id@, h)),
                None => r == Err::<String, DaError>(DaError::ProtocolInvariantViolation),
            },
    {
        let info = match &confirmation.info {
            Some(info) => info,
            None => return Err(DaError::ProtocolInvariantViolation),
        };
        let header = match &info.blob_header {
            Some(h) => h,
            None => return Err(DaError::ProtocolInvariantViolation),
        };
        let key = BlobKey::new(id, header.data_root.clone(), header.epoch, header.quorum_id);
        Ok(key.encode())
    }

    /// The request identifier that a verification query asks about, read
    /// from a reference key text.
    pub fn verification_request(reference_key: &str) -> (r: Result<Vec<u8>, DaError>)
        ensures
            match r {
                Ok(id) => exists|k: KeyFields| key_text(k) == reference_key@ && k.id == id@,
                Err(e) => e == DaError::MalformedReferenceKey && !is_key_text(reference_key@),
            },
    {
        match BlobKey::decode(reference_key) {
            Ok(key) => Ok(key.id().clone()),
            Err(e) => Err(e),
        }
    }
}

impl From<ZgDaConfig> for ZgDaClient {
    fn from(config: ZgDaConfig) -> (r: ZgDaClient) {
        ZgDaClient::new(config)
    }
}

impl vstd::std_specs::convert::FromSpecImpl<ZgDaConfig> for ZgDaClient {
    open spec fn obeys_from_spec() -> bool {
        true
    }

    open spec fn from_spec(config: ZgDaConfig) -> ZgDaClient {
        ZgDaClient::fresh(config)
    }
}

/// A client built from a configuration keeps that configuration and starts
/// with one free submission permit.
pub proof fn lemma_fresh_client(config: ZgDaConfig)
    ensures
        ZgDaClient::fresh(config).wf(),
        ZgDaClient::fresh(config).config_spec() == config,
        ZgDaClient::fresh(config).permits().capacity_spec() == 1,
        ZgDaClient::fresh(config).permits().in_flight_spec() == 0,
{
    crate::gate::lemma_fresh_gate(1);
}

/// A key text names one request: two readings of the same text ask the
/// service about the same identifier, so with the service unchanged they
/// classify alike.
pub proof fn lemma_verify_repeatable(t: Seq<char>, id1: Seq<u8>, id2: Seq<u8>)
    requires
        exists|k: KeyFields| key_text(k) == t && k.id == id1,
        exists|k: KeyFields| key_text(k) == t && k.id == id2,
    ensures
        id1 == id2,
{
    let k1 = choose|k: KeyFields| key_text(k) == t && k.id == id1;
    let k2 = choose|k: KeyFields| key_text(k) == t && k.id == id2;
    lemma_key_text_injective(k1, k2);
}

/// A submission met by `n` transport failures and then accepted is retried
/// after each failure and ends with the identifier of the accepting reply.
pub proof fn lemma_retry_liveness(delay: u32, replies: Seq<Option<Vec<u8>>>, n: nat, id: Vec<u8>)
    requires
        replies.len() == n + 1,
        forall|i: int| 0 <= i < n ==> replies[i] is None,
        replies[n as int] == Some(id),
    ensures
        forall|i: int| 0 <= i < n ==> submit_action(delay, #[trigger] replies[i]) == SubmitAction::RetryAfter(delay),
        submit_action(delay, replies[n as int]) == SubmitAction::Accepted(id),
{
}

/// A poll answered `m` times with "processing" and then with "confirmed"
/// waits after each of the first `m` replies and ends at reply `m + 1`, with
/// that reply as the confirmation record.
pub proof fn lemma_poll_termination(delay: u32, replies: Seq<Option<BlobStatusReply>>, m: nat)
    requires
        replies.len() == m + 1,
        forall|i: int| 0 <= i < m ==> (#[trigger] replies[i] matches Some(r) && r.status == STATUS_PROCESSING),
        replies[m as int] matches Some(r) && r.status == STATUS_CONFIRMED,
    ensures
        forall|i: int| 0 <= i < m ==> poll_action(delay, #[trigger] replies[i]) == PollAction::WaitAfter(delay),
        poll_action(delay, replies[m as int]) == PollAction::Confirmed(replies[m as int]->0),
{
}

} // verus!
