use vstd::prelude::*;

use crate::clock::{clock_failed, clock_reached, unix_now, CLOCK_LIMIT};
use crate::error::ConnectionError;
use crate::ident::{fresh_id, hyphenated_v4};

verus! {

/// How long a link-based connection stays open for a second participant,
/// unless configured otherwise: one week.
pub const DEFAULT_LINK_TTL_SECS: i64 = 604800;

/// Largest time-to-live accepted, so that an expiry time always fits in `i64`.
pub const MAX_TTL_SECS: i64 = 9_000_000_000_000_000_000;

/// A chat message sent from one participant of a connection.
#[derive(Debug, Clone)]
pub struct Message {
    pub id: String,
    pub from: String,
    pub content: String,
    pub timestamp: i64,
}

/// Life-cycle state of a link-based connection.
#[derive(Debug, Clone, Copy, PartialEq, Eq, Structural)]
pub enum ConnectionStatus {
    Pending,
    Active,
    Expired,
}

/// A link-based connection: created by one participant, joined by a second
/// one through its `link_id`. Times are whole seconds since the Unix epoch.
#[derive(Debug, Clone)]
pub struct Connection {
    pub id: String,
    pub link_id: String,
    pub players: Vec<String>,
    pub created_at: i64,
    pub status: ConnectionStatus,
    pub expires_at: i64,
}

/// What a link-based connection holds, as mathematical values.
pub struct ConnectionView {
    pub id: Seq<char>,
    pub link_id: Seq<char>,
    pub players: Seq<Seq<char>>,
    pub created_at: i64,
    pub status: ConnectionStatus,
    pub expires_at: i64,
}

impl View for Connection {
    type V = ConnectionView;

    open spec fn view(&self) -> ConnectionView {
        ConnectionView {
            id: self.id@,
            link_id: self.link_id@,
            players: strings_view(self.players@),
            created_at: self.created_at,
            status: self.status,
            expires_at: self.expires_at,
        }
    }
}

/// Identifiers as `Connection::new` draws them: two distinct hyphenated
/// version-4 UUIDs.
pub open spec fn fresh_identifiers(c: ConnectionView) -> bool {
    hyphenated_v4(c.id) && hyphenated_v4(c.link_id) && c.id != c.link_id
}

/// The characters of each string, in order.
pub open spec fn strings_view(v: Seq<String>) -> Seq<Seq<char>> {
    v.map_values(|s: String| s@)
}

/// A copy of `v` with the same strings in the same order.
pub fn copy_strings(v: &Vec<String>) -> (r: Vec<String>)
    ensures
        r@ == v@,
{
    let mut r: Vec<String> = Vec::new();
    let mut i: usize = 0;
    while i < v.len()
        invariant
            i <= v@.len(),
            r@ == v@.subrange(0, i as int),
        decreases v@.len() - i,
    {
        r.push(v[i].clone());
        i = i + 1;
    }
    r
}

impl ConnectionView {
    /// Expired at time `now`: still waiting for a second participant and
    /// past its expiry time.
    pub open spec fn expired_at(self, now: int) -> bool {
        self.players.len() < 2 && self.expires_at <= now
    }

    /// A connection that `player_id` just opened at time `now`, waiting for a
    /// second participant until `ttl_secs` seconds later.
    pub open spec fn opened_by(self, player_id: Seq<char>, now: int, ttl_secs: int) -> bool {
        &&& self.players == seq![player_id]
        &&& self.status == ConnectionStatus::Pending
        &&& self.created_at == now
        &&& self.expires_at == now + ttl_secs
    }
}

impl Connection {

    /// The connection `player_id` opens at time `now` under `id` and
    /// `link_id`, waiting for a second participant for `ttl_secs` seconds.
    pub fn opened(player_id: String, id: String, link_id: String, now: i64, ttl_secs: i64) -> (c: Self)
        requires
            -CLOCK_LIMIT < now < CLOCK_LIMIT,
            0 <= ttl_secs <= MAX_TTL_SECS,
        ensures
            c@.opened_by(player_id@, now as int, ttl_secs as int),
            c.id == id,
            c.link_id == link_id,
    {
        let mut players: Vec<String> = Vec::new();
        players.push(player_id);
        assert(strings_view(players@) =~= seq![player_id@]);
        Connection {
            id,
            link_id,
            players,
            created_at: now,
            status: ConnectionStatus::Pending,
            expires_at: now + ttl_secs,
        }
    }

    /// Opens a connection for `player_id` with fresh random `id` and
    /// `link_id`, expiring after the default time-to-live.
    pub fn new(player_id: String) -> (r: Result<Self, ConnectionError>)
        ensures
            r matches Ok(c) ==> c@.opened_by(player_id@, c.created_at as int, DEFAULT_LINK_TTL_SECS as int)
                && fresh_identifiers(c@) && -CLOCK_LIMIT < c.created_at < CLOCK_LIMIT,
            r is Err ==> clock_failed(r) || r matches Err(ConnectionError::AlreadyExists),
    {
        Self::with_ttl(player_id, DEFAULT_LINK_TTL_SECS)
    }

    /// Opens a connection for `player_id` with fresh random `id` and
    /// `link_id`, expiring `ttl_secs` seconds after now. A clock reading too
    /// far from the epoch gives `Storage`; two random identifiers that happen
    /// to be equal give `AlreadyExists`.
    pub fn with_ttl(player_id: String, ttl_secs: i64) -> (r: Result<Self, ConnectionError>)
        requires
            0 <= ttl_secs <= MAX_TTL_SECS,
        ensures
            r matches Ok(c) ==> c@.opened_by(player_id@, c.created_at as int, ttl_secs as int)
                && fresh_identifiers(c@) && -CLOCK_LIMIT < c.created_at < CLOCK_LIMIT,
            r is Err ==> clock_failed(r) || r matches Err(ConnectionError::AlreadyExists),
    {
        let now = match unix_now() {
            Ok(t) => t,
            Err(e) => {
                return Err(e);
            },
        };
        let id = fresh_id();
        let link_id = fresh_id();
        if id.eq(&link_id) {
            return Err(ConnectionError::AlreadyExists);
        }
        Ok(Self::opened(player_id, id, link_id, now, ttl_secs))
    }

    /// Whether the connection has expired at time `now`.
    pub fn is_expired_at(&self, now: i64) -> (r: bool)
        ensures
            r == self@.expired_at(now as int),
    {
        if self.players.len() >= 2 {
            return false;
        }
        self.expires_at <= now
    }

    /// Whether the connection has expired by the wall clock. A connection with
    /// two participants never expires.
    pub fn is_expired(&self) -> (r: bool)
        ensures
            r ==> self.players@.len() < 2,
    {
        if self.players.len() >= 2 {
            return false;
        }
        clock_reached(self.expires_at)
    }

    /// A copy of the connection, field for field.
    pub fn duplicate(&self) -> (r: Self)
        ensures
            r@ == self@,
    {
        Connection {
            id: self.id.clone(),
            link_id: self.link_id.clone(),
            players: copy_strings(&self.players),
            created_at: self.created_at,
            status: self.status,
            expires_at: self.expires_at,
        }
    }
}

} // verus!
