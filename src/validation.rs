use vstd::prelude::*;

use crate::clock::clock_passed;
use crate::error::{fails_invalid, invalid_request, ConnectionError};
use crate::models::{Connection, ConnectionRequest, ConnectionStatus};

verus! {

pub const EMPTY_INITIATOR: &'static str = "Initiator profile ID cannot be empty";

pub const SELF_CONNECTION: &'static str = "Cannot create connection with self";

pub const EMPTY_ID: &'static str = "Connection ID cannot be empty";

pub const EMPTY_LABEL: &'static str = "Initiator label cannot be empty";

pub const ACTIVE_WITHOUT_RECIPIENT: &'static str = "Active connection must have recipient information";

pub const ACTIVE_WITHOUT_CONNECTED_AT: &'static str = "Active connection must have connected_at";

pub const REJECTED_WITHOUT_RECIPIENT: &'static str = "Rejected connection must have recipient ID";

/// The reason a request is malformed, if it is: an empty initiator, or an
/// initiator addressing itself.
pub open spec fn request_defect(r: ConnectionRequest) -> Option<Seq<char>> {
    if r.from_profile_id@.len() == 0 {
        Some(EMPTY_INITIATOR@)
    } else if r.to_profile_id matches Some(to) && to@ == r.from_profile_id@ {
        Some(SELF_CONNECTION@)
    } else {
        None
    }
}

/// The first rule a connection breaks, if any: the id and the initiator
/// label are never empty; an active connection records its recipient, the
/// recipient's label and when it was connected; a rejected one records its
/// recipient.
pub open spec fn connection_defect(c: Connection) -> Option<Seq<char>> {
    if c.id@.len() == 0 {
        Some(EMPTY_ID@)
    } else if c.initiator_label@.len() == 0 {
        Some(EMPTY_LABEL@)
    } else if c.status == ConnectionStatus::Active && (c.recipient_id is None
        || c.recipient_label is None) {
        Some(ACTIVE_WITHOUT_RECIPIENT@)
    } else if c.status == ConnectionStatus::Active && c.connected_at is None {
        Some(ACTIVE_WITHOUT_CONNECTED_AT@)
    } else if c.status == ConnectionStatus::Rejected && c.recipient_id is None {
        Some(REJECTED_WITHOUT_RECIPIENT@)
    } else {
        None
    }
}

/// A connection that breaks none of the rules of `connection_defect`.
pub open spec fn valid_connection(c: Connection) -> bool {
    connection_defect(c) is None
}

/// Checks a request against the time `now`: `Expired` once its expiry time
/// has passed, else `InvalidRequest` when it is malformed.
pub fn check_request_at(request: &ConnectionRequest, now: i64) -> (r: Result<(), ConnectionError>)
    ensures
        request.expires_at < now ==> r matches Err(ConnectionError::Expired),
        request.expires_at >= now ==> match request_defect(*request) {
            Some(m) => fails_invalid(r, m),
            None => r is Ok,
        },
{
    if request.expires_at < now {
        return Err(ConnectionError::Expired);
    }
    if request.from_profile_id.as_str().is_empty() {
        return Err(invalid_request(EMPTY_INITIATOR));
    }
    match &request.to_profile_id {
        Some(to) => {
            if to.eq(&request.from_profile_id) {
                return Err(invalid_request(SELF_CONNECTION));
            }
        },
        None => {},
    }
    Ok(())
}

/// Checks a connection against the rules of `connection_defect`.
pub fn check_connection(c: &Connection) -> (r: Result<(), ConnectionError>)
    ensures
        match connection_defect(*c) {
            Some(m) => fails_invalid(r, m),
            None => r is Ok,
        },
{
    if c.id.as_str().is_empty() {
        return Err(invalid_request(EMPTY_ID));
    }
    if c.initiator_label.as_str().is_empty() {
        return Err(invalid_request(EMPTY_LABEL));
    }
    match c.status {
        ConnectionStatus::Active => {
            if c.recipient_id.is_none() || c.recipient_label.is_none() {
                return Err(invalid_request(ACTIVE_WITHOUT_RECIPIENT));
            }
            if c.connected_at.is_none() {
                return Err(invalid_request(ACTIVE_WITHOUT_CONNECTED_AT));
            }
        },
        ConnectionStatus::Rejected => {
            if c.recipient_id.is_none() {
                return Err(invalid_request(REJECTED_WITHOUT_RECIPIENT));
            }
        },
        _ => {},
    }
    Ok(())
}

/// Checks requests and connections before they are stored.
pub trait ConnectionValidator {
    /// Checks a request against the wall clock and its structure: `Expired`
    /// once the clock has passed its expiry time, else `InvalidRequest` when
    /// it is malformed.
    fn validate_request(&self, request: &ConnectionRequest) -> (r: Result<(), ConnectionError>)
        ensures
            r is Ok ==> request_defect(*request) is None,
            r is Err ==> r matches Err(ConnectionError::Expired) || (request_defect(*request) matches Some(m)
                && fails_invalid(r, m)),
            request_defect(*request) is Some ==> r is Err,
    ;

    /// Checks a connection's structure and state.
    fn validate_connection(&self, connection: &Connection) -> (r: Result<(), ConnectionError>)
        ensures
            match connection_defect(*connection) {
                Some(m) => fails_invalid(r, m),
                None => r is Ok,
            },
    ;
}

/// The validator applying the rules of `request_defect` and
/// `connection_defect`.
pub struct DefaultConnectionValidator;

impl DefaultConnectionValidator {
    pub fn new() -> Self {
        DefaultConnectionValidator
    }
}

impl ConnectionValidator for DefaultConnectionValidator {
    fn validate_request(&self, request: &ConnectionRequest) -> (r: Result<(), ConnectionError>) {
        if clock_passed(request.expires_at) {
            return Err(ConnectionError::Expired);
        }
        match check_request_at(request, request.expires_at) {
            Ok(()) => Ok(()),
            Err(e) => Err(e),
        }
    }

    fn validate_connection(&self, connection: &Connection) -> (r: Result<(), ConnectionError>) {
        check_connection(connection)
    }
}

} // verus!
