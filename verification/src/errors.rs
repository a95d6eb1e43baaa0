//! The error taxonomy of a reconciliation cycle.
//!
//! Each variant carries the provider's or loader's own words as its cause.
//! No variant is fatal in itself: the call site decides — a failure before
//! or during the first cycle ends the process, a failure in a later cycle
//! is logged and the loop goes on, and a per-action failure within a cycle
//! only enters that cycle's report.

use vstd::prelude::*;

verus! {

/// What went wrong, and the underlying cause's message.
#[derive(Debug, Clone, PartialEq, Eq)]
pub enum SyncError {
    /// The process environment did not yield a usable configuration.
    InvalidConfig(String),
    /// The provider client could not be built from the credential.
    LoginFail(String),
    /// The tagged instances could not be listed; the cycle is abandoned.
    ListDropletsFail(String),
    /// The domain's records could not be listed; the cycle is abandoned.
    ListRecordsFail(String),
    /// One record could not be created; the cycle carries on.
    CreateRecordFail(String),
    /// One record could not be deleted; the cycle carries on.
    DeleteRecordFail(String),
}

/// The cause carried by an error.
pub open spec fn spec_cause(e: SyncError) -> Seq<char> {
    match e {
        SyncError::InvalidConfig(c) => c@,
        SyncError::LoginFail(c) => c@,
        SyncError::ListDropletsFail(c) => c@,
        SyncError::ListRecordsFail(c) => c@,
        SyncError::CreateRecordFail(c) => c@,
        SyncError::DeleteRecordFail(c) => c@,
    }
}

/// The fixed description of an error's kind.
pub open spec fn spec_label(e: SyncError) -> Seq<char> {
    match e {
        SyncError::InvalidConfig(_) => "invalid configuration"@,
        SyncError::LoginFail(_) => "failed to create the provider client"@,
        SyncError::ListDropletsFail(_) => "failed to list droplets"@,
        SyncError::ListRecordsFail(_) => "failed to fetch domain records"@,
        SyncError::CreateRecordFail(_) => "failed to create record"@,
        SyncError::DeleteRecordFail(_) => "failed to delete record"@,
    }
}

impl SyncError {
    /// The underlying cause's message.
    pub fn cause(&self) -> (c: &String)
        ensures
            c@ == spec_cause(*self),
    {
        match self {
            SyncError::InvalidConfig(c) => c,
            SyncError::LoginFail(c) => c,
            SyncError::ListDropletsFail(c) => c,
            SyncError::ListRecordsFail(c) => c,
            SyncError::CreateRecordFail(c) => c,
            SyncError::DeleteRecordFail(c) => c,
        }
    }

    /// The fixed description of this error's kind, for logging.
    pub fn label(&self) -> (l: String)
        ensures
            l@ == spec_label(*self),
    {
        match self {
            SyncError::InvalidConfig(_) => "invalid configuration".to_owned(),
            SyncError::LoginFail(_) => "failed to create the provider client".to_owned(),
            SyncError::ListDropletsFail(_) => "failed to list droplets".to_owned(),
            SyncError::ListRecordsFail(_) => "failed to fetch domain records".to_owned(),
            SyncError::CreateRecordFail(_) => "failed to create record".to_owned(),
            SyncError::DeleteRecordFail(_) => "failed to delete record".to_owned(),
        }
    }
}

} // verus!
