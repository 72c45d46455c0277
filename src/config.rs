use vstd::prelude::*;

verus! {

/// Settings of a disperser client, fixed once the client is built.
#[derive(Clone, Debug)]
pub struct ZgDaConfig {
    /// Address of the disperser endpoint.
    pub url: String,
    /// Pause before a submission is sent again after a transport failure.
    pub disperser_retry_delay_ms: u32,
    /// Pause between two status queries while a blob is not yet confirmed.
    pub status_retry_delay_ms: u32,
}

impl ZgDaConfig {
    pub fn new(url: String, disperser_retry_delay_ms: u32, status_retry_delay_ms: u32) -> (r: ZgDaConfig)
        ensures
            r.url@ == url@,
            r.disperser_retry_delay_ms == disperser_retry_delay_ms,
            r.status_retry_delay_ms == status_retry_delay_ms,
    {
        ZgDaConfig { url, disperser_retry_delay_ms, status_retry_delay_ms }
    }
}

} // verus!
