use vstd::prelude::*;

verus! {

/// Life-cycle state of a request/accept connection.
#[derive(Debug, Clone, Copy, PartialEq, Eq, Structural)]
pub enum ConnectionStatus {
    Pending,
    Active,
    Rejected,
    Expired,
}

/// A request/accept connection between an initiator and, once accepted or
/// rejected, a recipient. Times are whole seconds since the Unix epoch.
#[derive(Debug, Clone)]
pub struct Connection {
    pub id: String,
    pub initiator_id: String,
    pub recipient_id: Option<String>,
    pub initiator_label: String,
    pub recipient_label: Option<String>,
    pub status: ConnectionStatus,
    pub created_at: i64,
    pub connected_at: Option<i64>,
}

/// The invitation issued when a connection is created. It never changes
/// once made.
#[derive(Debug, Clone)]
pub struct ConnectionRequest {
    pub connection_id: String,
    pub from_profile_id: String,
    pub to_profile_id: Option<String>,
    pub expires_at: i64,
}

/// A copy of an optional string.
pub fn copy_opt_string(s: &Option<String>) -> (r: Option<String>)
    ensures
        r == *s,
{
    match s {
        Some(v) => Some(v.clone()),
        None => None,
    }
}

impl Connection {
    /// A copy of the connection, field for field.
    pub fn duplicate(&self) -> (r: Self)
        ensures
            r == *self,
    {
        Connection {
            id: self.id.clone(),
            initiator_id: self.initiator_id.clone(),
            recipient_id: copy_opt_string(&self.recipient_id),
            initiator_label: self.initiator_label.clone(),
            recipient_label: copy_opt_string(&self.recipient_label),
            status: self.status,
            created_at: self.created_at,
            connected_at: self.connected_at,
        }
    }

    /// Whether `profile` takes part in the connection, as initiator or as
    /// recipient.
    pub open spec fn involves(self, profile: Seq<char>) -> bool {
        self.initiator_id@ == profile || (self.recipient_id matches Some(r) && r@ == profile)
    }
}

impl ConnectionRequest {
    /// A copy of the request, field for field.
    pub fn duplicate(&self) -> (r: Self)
        ensures
            r == *self,
    {
        ConnectionRequest {
            connection_id: self.connection_id.clone(),
            from_profile_id: self.from_profile_id.clone(),
            to_profile_id: copy_opt_string(&self.to_profile_id),
            expires_at: self.expires_at,
        }
    }
}

} // verus!
