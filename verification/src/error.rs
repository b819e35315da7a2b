//! The failures of calls to the upstream platform.

use vstd::prelude::*;
use vstd::string::StringExecFns;

verus! {

/// Why a call to the upstream platform produced nothing.
#[derive(Debug, Clone, Copy, PartialEq, Eq, Structural, Hash)]
pub enum UpstreamError {
    /// The network, DNS or TLS failed.
    Transport,
    /// The platform rejected the credential.
    Auth,
    /// A lookup for one user matched no record, or more than one.
    NotFound,
    /// The platform answered with a payload that could not be read.
    Parse,
    /// A retrieval was still handing out cursors at its page limit.
    PageLimit,
}

impl UpstreamError {
    /// Only a failed lookup is told to the client that asked; every other
    /// failure ends the operation in which it occurred and is tried again
    /// on the next occasion.
    pub open spec fn is_client_visible(self) -> bool {
        self == UpstreamError::NotFound
    }

    /// Whether the client that asked is told of this failure.
    pub fn reaches_client(&self) -> (visible: bool)
        ensures
            visible == self.is_client_visible(),
    {
        match self {
            UpstreamError::NotFound => true,
            _ => false,
        }
    }

    /// What an answer with the HTTP status `status` means for a call whose
    /// refusal counts as `refused`. Status 200 is no failure. A call whose
    /// refusal the client is told, which is a lookup, fails as `refused` on
    /// every other status. Any other call fails as `Auth` on the statuses
    /// 401 and 403, by which the platform rejects a credential, and as
    /// `refused` on the rest.
    pub open spec fn spec_of_status(status: u16, refused: UpstreamError) -> Option<UpstreamError> {
        if status == 200 {
            None
        } else if refused.is_client_visible() {
            Some(refused)
        } else if status == 401 || status == 403 {
            Some(UpstreamError::Auth)
        } else {
            Some(refused)
        }
    }

    /// The failure, if any, that an answer with the HTTP status `status`
    /// means for a call whose refusal counts as `refused`.
    #[verifier::when_used_as_spec(spec_of_status)]
    pub fn of_status(status: u16, refused: UpstreamError) -> (failure: Option<UpstreamError>)
        ensures
            failure == Self::spec_of_status(status, refused),
    {
        if status == 200 {
            None
        } else if refused.reaches_client() {
            Some(refused)
        } else if status == 401 || status == 403 {
            Some(UpstreamError::Auth)
        } else {
            Some(refused)
        }
    }

    /// A short name for the failure, for a log line.
    pub fn describe(&self) -> (text: String)
        ensures
            text@ == match *self {
                UpstreamError::Transport => "transport error"@,
                UpstreamError::Auth => "credential rejected"@,
                UpstreamError::NotFound => "not found"@,
                UpstreamError::Parse => "malformed payload"@,
                UpstreamError::PageLimit => "page limit reached"@,
            },
    {
        match self {
            UpstreamError::Transport => String::from_str("transport error"),
            UpstreamError::Auth => String::from_str("credential rejected"),
            UpstreamError::NotFound => String::from_str("not found"),
            UpstreamError::Parse => String::from_str("malformed payload"),
            UpstreamError::PageLimit => String::from_str("page limit reached"),
        }
    }
}

} // verus!
