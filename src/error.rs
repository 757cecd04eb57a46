use vstd::prelude::*;

verus! {

/// The ways an operation on connections can fail.
#[derive(Debug, Clone, PartialEq, Eq)]
pub enum ConnectionError {
    NotFound,
    AlreadyExists,
    Expired,
    Rejected,
    Storage(String),
    InvalidRequest(String),
}

/// `r` failed with `InvalidRequest` whose reason reads `reason`.
pub open spec fn fails_invalid<T>(r: Result<T, ConnectionError>, reason: Seq<char>) -> bool {
    r matches Err(ConnectionError::InvalidRequest(m)) && m@ == reason
}

/// An `InvalidRequest` error whose reason is a copy of `reason`.
pub fn invalid_request(reason: &str) -> (e: ConnectionError)
    ensures
        e matches ConnectionError::InvalidRequest(m) && m@ == reason@,
{
    ConnectionError::InvalidRequest(reason.to_owned())
}

} // verus!
