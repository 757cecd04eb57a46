use vstd::prelude::*;

use vstd::hash_map::StringHashMap;

use crate::clock::{clock_failed, unix_now, CLOCK_LIMIT};
use crate::connection::{strings_view, MAX_TTL_SECS};
use crate::error::{fails_invalid, invalid_request, ConnectionError};
use crate::ident::fresh_id;
use crate::models::{Connection, ConnectionRequest, ConnectionStatus};
use crate::validation::{
    check_request_at, connection_defect, valid_connection, ConnectionValidator,
    DefaultConnectionValidator, EMPTY_ID, EMPTY_INITIATOR, EMPTY_LABEL,
};

verus! {

/// How long a connection request stays valid, unless configured otherwise:
/// seven days.
pub const DEFAULT_REQUEST_TTL_SECS: i64 = 604800;

pub const NOT_PENDING: &'static str = "Connection is not pending";

/// The connection stored when `req` is issued with initiator label `label`
/// at time `created_at`: pending, with no recipient yet.
pub open spec fn pending_connection(req: ConnectionRequest, label: String, created_at: i64) -> Connection {
    Connection {
        id: req.connection_id,
        initiator_id: req.from_profile_id,
        recipient_id: None,
        initiator_label: label,
        recipient_label: None,
        status: ConnectionStatus::Pending,
        created_at,
        connected_at: None,
    }
}

/// `c` once accepted at time `at` by `recipient_id`, who labels it
/// `recipient_label`.
pub open spec fn accepted(c: Connection, recipient_id: String, recipient_label: String, at: i64) -> Connection {
    Connection {
        id: c.id,
        initiator_id: c.initiator_id,
        recipient_id: Some(recipient_id),
        initiator_label: c.initiator_label,
        recipient_label: Some(recipient_label),
        status: ConnectionStatus::Active,
        created_at: c.created_at,
        connected_at: Some(at),
    }
}

/// Recovering `c` into `stored` is refused because its id is taken.
pub open spec fn recovery_conflicts(stored: Map<Seq<char>, Connection>, c: Connection) -> bool {
    stored.contains_key(c.id@)
}

/// The stored connections after recovering `c` into `stored`: `c` is added
/// when its id is free and it breaks no rule, else nothing changes.
pub open spec fn recovered(stored: Map<Seq<char>, Connection>, c: Connection) -> Map<Seq<char>, Connection> {
    if !recovery_conflicts(stored, c) && valid_connection(c) {
        stored.insert(c.id@, c)
    } else {
        stored
    }
}

/// The stored connections in which `profile` takes part.
pub open spec fn involving(stored: Map<Seq<char>, Connection>, profile: Seq<char>) -> Map<Seq<char>, Connection> {
    Map::new(|k: Seq<char>| stored.contains_key(k) && stored[k].involves(profile), |k: Seq<char>| stored[k])
}

/// The stored connections that `profile`, when given, takes part in.
pub open spec fn selection(stored: Map<Seq<char>, Connection>, profile: Option<String>) -> Map<Seq<char>, Connection> {
    match profile {
        Some(p) => involving(stored, p@),
        None => stored,
    }
}

/// `v` lists each connection of `m` exactly once, each stored under its id.
pub open spec fn enumerates(v: Seq<Connection>, m: Map<Seq<char>, Connection>) -> bool {
    &&& forall|i: int| 0 <= i < v.len() ==> m.contains_key(#[trigger] v[i].id@) && m[v[i].id@] == v[i]
    &&& forall|k: Seq<char>| #[trigger] m.contains_key(k) ==> exists|i: int| 0 <= i < v.len() && v[i].id@ == k
    &&& forall|i: int, j: int| 0 <= i < j < v.len() ==> v[i].id@ != v[j].id@
}

/// Where `key` stands in `v`, if it does.
fn position_of(v: &Vec<String>, key: &String) -> (r: Option<usize>)
    ensures
        r matches Some(i) ==> i < v@.len() && strings_view(v@)[i as int] == key@,
        r is None ==> !strings_view(v@).contains(key@),
{
    let mut i: usize = 0;
    while i < v.len()
        invariant
            i <= v@.len(),
            forall|j: int| 0 <= j < i ==> strings_view(v@)[j] != key@,
        decreases v@.len() - i,
    {
        if v[i].eq(key) {
            return Some(i);
        }
        i = i + 1;
    }
    None
}

/// Request/accept connections and their requests, kept in memory.
///
/// Every operation runs to completion on `&mut self`, so a caller that
/// shares a manager between tasks puts it behind a lock and each operation
/// is one critical section.
pub struct InMemoryConnectionManager {
    connections: StringHashMap<Connection>,
    order: Vec<String>,
    requests: StringHashMap<ConnectionRequest>,
    validator: DefaultConnectionValidator,
    request_ttl_secs: i64,
}

impl Default for InMemoryConnectionManager {
    fn default() -> (m: Self)
        ensures
            m.wf(),
            m.stored() == Map::<Seq<char>, Connection>::empty(),
            m.issued() == Map::<Seq<char>, ConnectionRequest>::empty(),
            m.request_ttl() == DEFAULT_REQUEST_TTL_SECS,
    {
        Self::with_request_ttl(DEFAULT_REQUEST_TTL_SECS)
    }
}

impl InMemoryConnectionManager {
    /// The stored connections, by id.
    pub closed spec fn stored(&self) -> Map<Seq<char>, Connection> {
        self.connections@
    }

    /// The issued requests, by connection id.
    pub closed spec fn issued(&self) -> Map<Seq<char>, ConnectionRequest> {
        self.requests@
    }

    /// How long a new request stays valid, in seconds.
    pub closed spec fn request_ttl(&self) -> int {
        self.request_ttl_secs as int
    }

    /// The ids of the stored connections, oldest first.
    closed spec fn order_view(&self) -> Seq<Seq<char>> {
        strings_view(self.order@)
    }

    /// Well-formed: every stored connection sits under its own id and breaks
    /// no rule, and the ids are listed once each in order of insertion.
    pub closed spec fn wf(&self) -> bool {
        &&& forall|k: Seq<char>| #[trigger] self.connections@.contains_key(k) ==> self.connections@[k].id@ == k
            && valid_connection(self.connections@[k])
        &&& forall|k: Seq<char>| self.connections@.contains_key(k) <==> #[trigger] self.order_view().contains(k)
        &&& self.order_view().no_duplicates()
        &&& 0 <= self.request_ttl_secs <= MAX_TTL_SECS
    }

    /// An empty manager whose requests stay valid for the default time.
    pub fn new() -> (m: Self)
        ensures
            m.wf(),
            m.stored() == Map::<Seq<char>, Connection>::empty(),
            m.issued() == Map::<Seq<char>, ConnectionRequest>::empty(),
            m.request_ttl() == DEFAULT_REQUEST_TTL_SECS,
    {
        Self::with_request_ttl(DEFAULT_REQUEST_TTL_SECS)
    }

    /// An empty manager whose requests stay valid for `ttl_secs` seconds.
    pub fn with_request_ttl(ttl_secs: i64) -> (m: Self)
        requires
            0 <= ttl_secs <= MAX_TTL_SECS,
        ensures
            m.wf(),
            m.stored() == Map::<Seq<char>, Connection>::empty(),
            m.issued() == Map::<Seq<char>, ConnectionRequest>::empty(),
            m.request_ttl() == ttl_secs,
    {
        let m = InMemoryConnectionManager {
            connections: StringHashMap::new(),
            order: Vec::new(),
            requests: StringHashMap::new(),
            validator: DefaultConnectionValidator::new(),
            request_ttl_secs: ttl_secs,
        };
        assert(m.order_view() =~= Seq::<Seq<char>>::empty());
        m
    }

    /// Adds `c` under its id, which no stored connection has.
    fn insert_new(&mut self, c: Connection)
        requires
            old(self).wf(),
            valid_connection(c),
            !old(self).stored().contains_key(c.id@),
        ensures
            final(self).wf(),
            final(self).stored() == old(self).stored().insert(c.id@, c),
            final(self).issued() == old(self).issued(),
            final(self).request_ttl() == old(self).request_ttl(),
    {
        let key = c.id.clone();
        self.order.push(c.id.clone());
        self.connections.insert(key, c);
        assert(self.order_view() =~= old(self).order_view().push(c.id@));
        assert forall|k: Seq<char>| self.connections@.contains_key(k) <==> #[trigger] self.order_view().contains(k) by {
            if k == c.id@ {
                assert(self.order_view()[self.order_view().len() - 1] == k);
            } else if old(self).order_view().contains(k) {
                let i = choose|i: int| 0 <= i < old(self).order_view().len() && old(self).order_view()[i] == k;
                assert(self.order_view()[i] == k);
            }
        }
        assert(!old(self).order_view().contains(c.id@));
        assert(self.order_view().no_duplicates()) by {
            assert forall|i: int, j: int|
                0 <= i < self.order_view().len() && 0 <= j < self.order_view().len() && i != j
                implies self.order_view()[i] != self.order_view()[j] by {
                if i == self.order_view().len() - 1 {
                    assert(old(self).order_view()[j] == self.order_view()[j]);
                } else if j == self.order_view().len() - 1 {
                    assert(old(self).order_view()[i] == self.order_view()[i]);
                }
            }
        }
        assert forall|k: Seq<char>| #[trigger] self.connections@.contains_key(k) implies self.connections@[k].id@ == k
            && valid_connection(self.connections@[k]) by {
            if k != c.id@ {
                assert(old(self).connections@.contains_key(k));
            }
        }
    }

    /// Checks that `connection` may be recovered: its id is not taken and it
    /// breaks no rule.
    fn validate_recovery(&self, connection: &Connection) -> (r: Result<(), ConnectionError>)
        requires
            self.wf(),
        ensures
            recovery_conflicts(self.stored(), *connection) ==> r matches Err(ConnectionError::AlreadyExists),
            !recovery_conflicts(self.stored(), *connection) ==> match connection_defect(*connection) {
                Some(m) => fails_invalid(r, m),
                None => r is Ok,
            },
    {
        if self.connections.contains_key(connection.id.as_str()) {
            return Err(ConnectionError::AlreadyExists);
        }
        self.validator.validate_connection(connection)
    }

    /// Issues, at time `now`, a request under `connection_id` from
    /// `initiator_id`, valid for the configured time, and stores its pending
    /// connection, labelled `initiator_label`, under the same id. An empty
    /// initiator, id or label gives `InvalidRequest`, in that order; an id
    /// already stored or issued gives `AlreadyExists`; a failure changes
    /// nothing.
    pub fn issue_with(
        &mut self,
        connection_id: String,
        now: i64,
        initiator_id: String,
        initiator_label: String,
    ) -> (r: Result<ConnectionRequest, ConnectionError>)
        requires
            old(self).wf(),
            -CLOCK_LIMIT < now < CLOCK_LIMIT,
        ensures
            final(self).wf(),
            final(self).request_ttl() == old(self).request_ttl(),
            initiator_id@.len() == 0 ==> fails_invalid(r, EMPTY_INITIATOR@),
            initiator_id@.len() > 0 && connection_id@.len() == 0 ==> fails_invalid(r, EMPTY_ID@),
            initiator_id@.len() > 0 && connection_id@.len() > 0 && initiator_label@.len() == 0
                ==> fails_invalid(r, EMPTY_LABEL@),
            initiator_id@.len() > 0 && connection_id@.len() > 0 && initiator_label@.len() > 0 ==> {
                if old(self).stored().contains_key(connection_id@) || old(self).issued().contains_key(connection_id@) {
                    r matches Err(ConnectionError::AlreadyExists)
                } else {
                    r is Ok
                }
            },
            r is Err ==> final(self).stored() == old(self).stored() && final(self).issued() == old(self).issued(),
            r matches Ok(req) ==> {
                &&& req.connection_id == connection_id
                &&& req.from_profile_id == initiator_id
                &&& req.to_profile_id is None
                &&& req.expires_at == now + old(self).request_ttl()
                &&& final(self).issued() == old(self).issued().insert(connection_id@, req)
                &&& final(self).stored() == old(self).stored().insert(
                    connection_id@,
                    pending_connection(req, initiator_label, now),
                )
            },
    {
        let request = ConnectionRequest {
            connection_id: connection_id.clone(),
            from_profile_id: initiator_id.clone(),
            to_profile_id: None,
            expires_at: now + self.request_ttl_secs,
        };
        match check_request_at(&request, now) {
            Ok(()) => {},
            Err(e) => {
                return Err(e);
            },
        }
        let connection = Connection {
            id: connection_id,
            initiator_id,
            recipient_id: None,
            initiator_label,
            recipient_label: None,
            status: ConnectionStatus::Pending,
            created_at: now,
            connected_at: None,
        };
        match self.validator.validate_connection(&connection) {
            Ok(()) => {},
            Err(e) => {
                return Err(e);
            },
        }
        if self.connections.contains_key(request.connection_id.as_str())
            || self.requests.contains_key(request.connection_id.as_str()) {
            return Err(ConnectionError::AlreadyExists);
        }
        self.requests.insert(request.connection_id.clone(), request.duplicate());
        self.insert_new(connection);
        Ok(request)
    }

    /// Issues a request from `initiator_id` under a fresh random id, at the
    /// wall clock's time, as `issue_with` does. A clock reading too far from
    /// the epoch gives `Storage`; a random id that is already taken gives
    /// `AlreadyExists`; a failure changes nothing.
    pub fn create_connection(&mut self, initiator_id: String, initiator_label: String) -> (r: Result<ConnectionRequest, ConnectionError>)
        requires
            old(self).wf(),
        ensures
            final(self).wf(),
            final(self).request_ttl() == old(self).request_ttl(),
            !clock_failed(r) ==> {
                &&& initiator_id@.len() == 0 ==> fails_invalid(r, EMPTY_INITIATOR@)
                &&& initiator_id@.len() > 0 && initiator_label@.len() == 0 ==> fails_invalid(r, EMPTY_LABEL@)
                &&& initiator_id@.len() > 0 && initiator_label@.len() > 0 ==> r is Ok || r matches Err(ConnectionError::AlreadyExists)
            },
            r is Err ==> final(self).stored() == old(self).stored() && final(self).issued() == old(self).issued(),
            r matches Ok(req) ==> {
                let created_at = final(self).stored()[req.connection_id@].created_at;
                &&& !old(self).stored().contains_key(req.connection_id@)
                &&& !old(self).issued().contains_key(req.connection_id@)
                &&& req.from_profile_id == initiator_id
                &&& req.to_profile_id is None
                &&& -CLOCK_LIMIT < created_at < CLOCK_LIMIT
                &&& req.expires_at == created_at + old(self).request_ttl()
                &&& final(self).issued() == old(self).issued().insert(req.connection_id@, req)
                &&& final(self).stored() == old(self).stored().insert(
                    req.connection_id@,
                    pending_connection(req, initiator_label, created_at),
                )
            },
    {
        let now = match unix_now() {
            Ok(t) => t,
            Err(e) => {
                return Err(e);
            },
        };
        let connection_id = fresh_id();
        self.issue_with(connection_id, now, initiator_id, initiator_label)
    }

    /// Accepts the pending connection `connection_id` on behalf of
    /// `recipient_id`: it becomes active, with its recipient and the time it
    /// was connected recorded. An unknown id gives `NotFound`; a connection
    /// that is not pending gives `InvalidRequest` and stays as it was; a clock
    /// reading too far from the epoch gives `Storage` and changes nothing.
    pub fn accept_connection(&mut self, connection_id: &str, recipient_id: String, recipient_label: String) -> (r: Result<Connection, ConnectionError>)
        requires
            old(self).wf(),
        ensures
            final(self).wf(),
            final(self).issued() == old(self).issued(),
            final(self).request_ttl() == old(self).request_ttl(),
            !old(self).stored().contains_key(connection_id@) ==> r matches Err(ConnectionError::NotFound),
            old(self).stored().contains_key(connection_id@) && old(self).stored()[connection_id@].status != ConnectionStatus::Pending
                ==> fails_invalid(r, NOT_PENDING@),
            old(self).stored().contains_key(connection_id@) && old(self).stored()[connection_id@].status == ConnectionStatus::Pending
                ==> r is Ok || clock_failed(r),
            r is Err ==> final(self).stored() == old(self).stored(),
            r matches Ok(c) ==> c.connected_at matches Some(at) && -CLOCK_LIMIT < at < CLOCK_LIMIT && c == accepted(
                old(self).stored()[connection_id@],
                recipient_id,
                recipient_label,
                at,
            ) && final(self).stored() == old(self).stored().insert(connection_id@, c),
    {
        let current = match self.connections.get(connection_id) {
            Some(c) => c.duplicate(),
            None => {
                return Err(ConnectionError::NotFound);
            },
        };
        if current.status != ConnectionStatus::Pending {
            return Err(invalid_request(NOT_PENDING));
        }
        let now = match unix_now() {
            Ok(t) => t,
            Err(e) => {
                return Err(e);
            },
        };
        let updated = Connection {
            id: current.id,
            initiator_id: current.initiator_id,
            recipient_id: Some(recipient_id),
            initiator_label: current.initiator_label,
            recipient_label: Some(recipient_label),
            status: ConnectionStatus::Active,
            created_at: current.created_at,
            connected_at: Some(now),
        };
        match self.validator.validate_connection(&updated) {
            Ok(()) => {},
            Err(e) => {
                return Err(e);
            },
        }
        let result = updated.duplicate();
        let key = updated.id.clone();
        self.connections.insert(key, updated);
        assert forall|k: Seq<char>| self.connections@.contains_key(k) <==> #[trigger] self.order_view().contains(k) by {
            assert(old(self).connections@.contains_key(k) <==> old(self).order_view().contains(k));
        }
        assert forall|k: Seq<char>| #[trigger] self.connections@.contains_key(k) implies self.connections@[k].id@ == k
            && valid_connection(self.connections@[k]) by {
            if k != connection_id@ {
                assert(old(self).connections@.contains_key(k));
            }
        }
        Ok(result)
    }

    /// Restores a connection from a backup held by a client. Live state is
    /// never overwritten: an id already stored gives `AlreadyExists`; a
    /// connection that breaks a rule gives `InvalidRequest`.
    pub fn recover_connection(&mut self, connection: Connection) -> (r: Result<(), ConnectionError>)
        requires
            old(self).wf(),
        ensures
            final(self).wf(),
            recovery_conflicts(old(self).stored(), connection) ==> r matches Err(ConnectionError::AlreadyExists),
            !recovery_conflicts(old(self).stored(), connection) ==> match connection_defect(connection) {
                Some(m) => fails_invalid(r, m),
                None => r is Ok,
            },
            final(self).stored() == recovered(old(self).stored(), connection),
            final(self).issued() == old(self).issued(),
            final(self).request_ttl() == old(self).request_ttl(),
    {
        match self.validate_recovery(&connection) {
            Ok(()) => {
                self.insert_new(connection);
                Ok(())
            },
            Err(e) => Err(e),
        }
    }

    /// The connection stored under `connection_id`.
    pub fn get_connection(&self, connection_id: &str) -> (r: Result<Connection, ConnectionError>)
        ensures
            self.stored().contains_key(connection_id@) ==> r == Ok::<Connection, ConnectionError>(self.stored()[connection_id@]),
            !self.stored().contains_key(connection_id@) ==> r matches Err(ConnectionError::NotFound),
    {
        match self.connections.get(connection_id) {
            Some(c) => Ok(c.duplicate()),
            None => Err(ConnectionError::NotFound),
        }
    }

    /// Removes the connection stored under `connection_id`; `NotFound` when
    /// there is none. Its request stays on record.
    pub fn delete_connection(&mut self, connection_id: &str) -> (r: Result<(), ConnectionError>)
        requires
            old(self).wf(),
        ensures
            final(self).wf(),
            r is Ok <==> old(self).stored().contains_key(connection_id@),
            r is Err ==> r matches Err(ConnectionError::NotFound),
            final(self).stored() == old(self).stored().remove(connection_id@),
            final(self).issued() == old(self).issued(),
            final(self).request_ttl() == old(self).request_ttl(),
    {
        let key = connection_id.to_owned();
        match position_of(&self.order, &key) {
            Some(i) => {
                let ghost old_order = old(self).order_view();
                assert(old_order.contains(connection_id@));
                self.order.remove(i);
                self.connections.remove(connection_id);
                assert(self.order_view() =~= old_order.remove(i as int));
                assert forall|k: Seq<char>| self.connections@.contains_key(k) <==> #[trigger] self.order_view().contains(k) by {
                    if self.order_view().contains(k) {
                        let t = choose|t: int| 0 <= t < self.order_view().len() && self.order_view()[t] == k;
                        if t < i {
                            assert(old_order[t] == k);
                            assert(old_order.contains(k));
                        } else {
                            assert(old_order[t + 1] == k);
                            assert(old_order.contains(k));
                        }
                        assert(k != connection_id@);
                    }
                    if self.connections@.contains_key(k) {
                        assert(old_order.contains(k));
                        let t = choose|t: int| 0 <= t < old_order.len() && old_order[t] == k;
                        if t < i {
                            assert(self.order_view()[t] == k);
                        } else {
                            assert(self.order_view()[t - 1] == k);
                        }
                    }
                }
                assert forall|k: Seq<char>| #[trigger] self.connections@.contains_key(k) implies self.connections@[k].id@ == k
                    && valid_connection(self.connections@[k]) by {
                    assert(old(self).connections@.contains_key(k));
                }
                assert(self.order_view().no_duplicates()) by {
                    assert forall|a: int, b: int|
                        0 <= a < self.order_view().len() && 0 <= b < self.order_view().len() && a != b
                        implies self.order_view()[a] != self.order_view()[b] by {
                        let a1 = if a < i { a } else { a + 1 };
                        let b1 = if b < i { b } else { b + 1 };
                        assert(self.order_view()[a] == old_order[a1]);
                        assert(self.order_view()[b] == old_order[b1]);
                    }
                }
                Ok(())
            },
            None => {
                assert(!self.order_view().contains(connection_id@));
                assert(self.connections@.remove(connection_id@) =~= self.connections@);
                Err(ConnectionError::NotFound)
            },
        }
    }

    /// The stored connections that `profile`, when given, takes part in, or
    /// all of them, oldest first.
    fn select(&self, profile: Option<String>) -> (v: Vec<Connection>)
        requires
            self.wf(),
        ensures
            enumerates(v@, selection(self.stored(), profile)),
    {
        let ghost sel = selection(self.stored(), profile);
        let ghost ov = self.order_view();
        let mut v: Vec<Connection> = Vec::new();
        let mut i: usize = 0;
        while i < self.order.len()
            invariant
                self.wf(),
                ov == self.order_view(),
                sel == selection(self.stored(), profile),
                i <= ov.len(),
                forall|j: int| 0 <= j < v@.len() ==> sel.contains_key(#[trigger] v@[j].id@) && sel[v@[j].id@] == v@[j]
                    && exists|t: int| 0 <= t < i && ov[t] == v@[j].id@,
                forall|t: int| 0 <= t < i && #[trigger] sel.contains_key(ov[t]) ==> exists|j: int| 0 <= j < v@.len() && v@[j].id@ == ov[t],
                forall|a: int, b: int| 0 <= a < b < v@.len() ==> v@[a].id@ != v@[b].id@,
            decreases ov.len() - i,
        {
            let ghost k = ov[i as int];
            assert(ov.contains(k));
            assert(self.stored().contains_key(k));
            let c = match self.connections.get(self.order[i].as_str()) {
                Some(c) => c,
                None => {
                    proof {
                        assert(false);
                    }
                    return v;
                },
            };
            let wanted = match &profile {
                Some(p) => c.initiator_id.eq(p) || match &c.recipient_id {
                    Some(rid) => rid.eq(p),
                    None => false,
                },
                None => true,
            };
            let ghost before = v@;
            if wanted {
                v.push(c.duplicate());
                assert forall|a: int, b: int| 0 <= a < b < v@.len() implies v@[a].id@ != v@[b].id@ by {
                    if b == v@.len() - 1 {
                        assert(before[a] == v@[a]);
                        let t = choose|t: int| 0 <= t < i && ov[t] == before[a].id@;
                        assert(ov[t] != ov[i as int]);
                    }
                }
                assert forall|j: int| 0 <= j < v@.len() implies sel.contains_key(#[trigger] v@[j].id@) && sel[v@[j].id@] == v@[j]
                    && exists|t: int| 0 <= t < i + 1 && ov[t] == v@[j].id@ by {
                    if j < before.len() {
                        assert(before[j] == v@[j]);
                        let t = choose|t: int| 0 <= t < i && ov[t] == before[j].id@;
                        assert(ov[t] == v@[j].id@);
                    } else {
                        assert(ov[i as int] == v@[j].id@);
                    }
                }
                assert forall|t: int| 0 <= t < i + 1 && #[trigger] sel.contains_key(ov[t]) implies exists|j: int| 0 <= j < v@.len() && v@[j].id@ == ov[t] by {
                    if t < i {
                        let j = choose|j: int| 0 <= j < before.len() && before[j].id@ == ov[t];
                        assert(v@[j] == before[j]);
                    } else {
                        assert(v@[v@.len() - 1].id@ == ov[t]);
                    }
                }
            } else {
                assert(!sel.contains_key(k));
            }
            i = i + 1;
        }
        assert forall|k: Seq<char>| #[trigger] sel.contains_key(k) implies exists|j: int| 0 <= j < v@.len() && v@[j].id@ == k by {
            assert(self.stored().contains_key(k));
            assert(ov.contains(k));
            let t = choose|t: int| 0 <= t < ov.len() && ov[t] == k;
            assert(sel.contains_key(ov[t]));
        }
        v
    }

    /// The connections in which `profile_id` is initiator or recipient, each
    /// once.
    pub fn list_connections(&self, profile_id: &str) -> (r: Result<Vec<Connection>, ConnectionError>)
        requires
            self.wf(),
        ensures
            r matches Ok(v) && enumerates(v@, involving(self.stored(), profile_id@)),
    {
        Ok(self.select(Some(profile_id.to_owned())))
    }

    /// Every stored connection, each once.
    pub fn list_all_connections(&self) -> (r: Result<Vec<Connection>, ConnectionError>)
        requires
            self.wf(),
        ensures
            r matches Ok(v) && enumerates(v@, self.stored()),
    {
        Ok(self.select(None))
    }

    /// The request issued for `connection_id`.
    pub fn get_request(&self, connection_id: &str) -> (r: Result<ConnectionRequest, ConnectionError>)
        ensures
            self.issued().contains_key(connection_id@) ==> r == Ok::<ConnectionRequest, ConnectionError>(self.issued()[connection_id@]),
            !self.issued().contains_key(connection_id@) ==> r matches Err(ConnectionError::NotFound),
    {
        match self.requests.get(connection_id) {
            Some(q) => Ok(q.duplicate()),
            None => Err(ConnectionError::NotFound),
        }
    }
}

/// Recovering twice with one id: once the first recovery has stored its
/// connection, or found the id taken, the second one meets a conflict and
/// fails with `AlreadyExists`, whatever it carries.
pub proof fn lemma_recover_twice_conflicts(stored: Map<Seq<char>, Connection>, first: Connection, second: Connection)
    requires
        first.id@ == second.id@,
        recovery_conflicts(stored, first) || valid_connection(first),
    ensures
        recovery_conflicts(recovered(stored, first), second),
{
}

/// A recovered connection reads back unchanged under its id.
pub proof fn lemma_recover_round_trip(stored: Map<Seq<char>, Connection>, c: Connection)
    requires
        !recovery_conflicts(stored, c),
        valid_connection(c),
    ensures
        recovered(stored, c).contains_key(c.id@),
        recovered(stored, c)[c.id@] == c,
{
}

/// Deleting twice: after a delete the id is gone, so each further delete of
/// it reports `NotFound` and changes nothing.
pub proof fn lemma_delete_twice(stored: Map<Seq<char>, Connection>, id: Seq<char>)
    ensures
        !stored.remove(id).contains_key(id),
        stored.remove(id).remove(id) == stored.remove(id),
{
    assert(stored.remove(id).remove(id) =~= stored.remove(id));
}

} // verus!
