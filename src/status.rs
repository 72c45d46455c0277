use vstd::prelude::*;

verus! {

/// Outcome of a one-shot verification query on a published blob.
#[derive(Clone, Copy, Debug, PartialEq, Eq, Structural)]
pub enum DaVerificationStatus {
    Verified,
    Pending,
    Rejected,
}

/// Status code the disperser reports for a blob it is still working on.
pub const STATUS_PROCESSING: i32 = 1;

/// Status code the disperser reports once a blob is durably stored.
pub const STATUS_CONFIRMED: i32 = 2;

/// Status code the disperser reports once a confirmed blob is final.
pub const STATUS_FINALIZED: i32 = 4;

/// How a raw status code (or its absence) is classified by a verification query.
pub open spec fn classification(status: Option<i32>) -> DaVerificationStatus {
    match status {
        Some(c) => if c == STATUS_CONFIRMED || c == STATUS_FINALIZED {
            DaVerificationStatus::Verified
        } else if c == STATUS_PROCESSING {
            DaVerificationStatus::Pending
        } else {
            DaVerificationStatus::Rejected
        },
        None => DaVerificationStatus::Rejected,
    }
}

/// Classifies the status code of a query reply; `None` stands for a query
/// that failed before a reply could be read.
pub fn classify_status(status: Option<i32>) -> (r: DaVerificationStatus)
    ensures
        r == classification(status),
{
    match status {
        Some(c) => if c == STATUS_CONFIRMED || c == STATUS_FINALIZED {
            DaVerificationStatus::Verified
        } else if c == STATUS_PROCESSING {
            DaVerificationStatus::Pending
        } else {
            DaVerificationStatus::Rejected
        },
        None => DaVerificationStatus::Rejected,
    }
}

} // verus!
