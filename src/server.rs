use vstd::prelude::*;

use vstd::hash_map::StringHashMap;
use vstd::string::StringExecFns;

use crate::clock::{clock_failed, unix_now, CLOCK_LIMIT};
use crate::connection::{
    copy_strings, fresh_identifiers, strings_view, Connection, ConnectionStatus, ConnectionView,
    Message, DEFAULT_LINK_TTL_SECS, MAX_TTL_SECS,
};
use crate::error::{fails_invalid, invalid_request, ConnectionError};
use crate::ident::{fresh_id, hyphenated_v4};
use crate::validation::EMPTY_INITIATOR;

verus! {

pub const MAX_PLAYERS: &'static str = "Connection already has maximum players";

pub const ALREADY_JOINED: &'static str = "Player already in connection";

pub const NOT_A_PARTICIPANT: &'static str = "Player not in this connection";

/// The notice a participant gets when `player` joins their connection.
pub open spec fn join_notice(player: Seq<char>) -> Seq<char> {
    "Player "@ + player + " joined your connection"@
}

/// The notice a participant gets when `from` sends `content`.
pub open spec fn message_notice(from: Seq<char>, content: Seq<char>) -> Seq<char> {
    "Message from "@ + from + ": "@ + content
}

/// The shapes a stored link-based connection takes: one participant while
/// pending, two distinct ones once active.
pub open spec fn well_shaped(c: ConnectionView) -> bool {
    ||| c.players.len() == 1 && c.status == ConnectionStatus::Pending
    ||| c.players.len() == 2 && c.status == ConnectionStatus::Active && c.players[0] != c.players[1]
}

/// `c` once `player` has joined it as second participant.
pub open spec fn joined(c: ConnectionView, player: Seq<char>) -> ConnectionView {
    ConnectionView {
        id: c.id,
        link_id: c.link_id,
        players: c.players.push(player),
        created_at: c.created_at,
        status: ConnectionStatus::Active,
        expires_at: c.expires_at,
    }
}

/// Each record of `m` is stored under both its id and its link id, which
/// differ, and nowhere else, and has a shape of `well_shaped`.
pub open spec fn indexed(m: Map<Seq<char>, ConnectionView>) -> bool {
    forall|k: Seq<char>| #[trigger] m.contains_key(k) ==> {
        let c = m[k];
        &&& k == c.id || k == c.link_id
        &&& c.id != c.link_id
        &&& m.contains_key(c.id) && m[c.id] == c
        &&& m.contains_key(c.link_id) && m[c.link_id] == c
        &&& well_shaped(c)
    }
}

fn join_text(player: &String) -> (r: String)
    ensures
        r@ == join_notice(player@),
{
    let mut r = "Player ".to_owned();
    r.append(player.as_str());
    r.append(" joined your connection");
    r
}

fn message_text(from: &String, content: &String) -> (r: String)
    ensures
        r@ == message_notice(from@, content@),
{
    let mut r = "Message from ".to_owned();
    r.append(from.as_str());
    r.append(": ");
    r.append(content.as_str());
    r
}

/// Whether `p` is among `players`.
fn holds(players: &Vec<String>, p: &String) -> (r: bool)
    ensures
        r == strings_view(players@).contains(p@),
{
    let mut i: usize = 0;
    while i < players.len()
        invariant
            i <= players@.len(),
            forall|j: int| 0 <= j < i ==> strings_view(players@)[j] != p@,
        decreases players@.len() - i,
    {
        if players[i].eq(p) {
            assert(strings_view(players@)[i as int] == p@);
            return true;
        }
        i = i + 1;
    }
    false
}

/// Seconds to wait after the inbound stream reports an error, before
/// receiving again.
pub const RETRY_BACKOFF_SECS: u64 = 1;

/// What the inbound notification stream handed over.
pub enum Inbound {
    /// A notification for `player_id` reading `content`.
    Notification { player_id: String, content: String },
    /// A message whose payload is not a notification.
    Unreadable,
    /// The stream reported an error instead of a message.
    Failed,
}

/// What the consumer of the inbound stream does next.
#[derive(Debug, Clone, Copy, PartialEq, Eq, Structural)]
pub enum ConsumerAction {
    /// Commit the message just received, then receive the next one.
    Commit,
    /// Wait `RETRY_BACKOFF_SECS` seconds, then receive again.
    Backoff,
}

/// Link-based connections, stored under both their id and their link id,
/// and the notification inbox of each participant.
///
/// Every operation runs to completion on `&mut self`: a caller that shares
/// the server between tasks puts it behind a lock, so that each operation,
/// a join's check and append included, is one critical section.
pub struct Server {
    pub address: String,
    connections: StringHashMap<Connection>,
    notifications: StringHashMap<Vec<String>>,
    link_ttl_secs: i64,
}

impl Server {
    /// The address the server is meant to listen on.
    pub closed spec fn address_view(&self) -> Seq<char> {
        self.address@
    }

    /// How long a new connection waits for its second participant, in
    /// seconds.
    pub closed spec fn link_ttl(&self) -> int {
        self.link_ttl_secs as int
    }

    /// The stored records, under both id and link id.
    pub closed spec fn records(&self) -> Map<Seq<char>, ConnectionView> {
        self.connections@.map_values(|c: Connection| c@)
    }

    /// The inboxes, by participant.
    pub closed spec fn inboxes(&self) -> Map<Seq<char>, Seq<Seq<char>>> {
        self.notifications@.map_values(|v: Vec<String>| strings_view(v@))
    }

    /// The notifications waiting for `player`, oldest first.
    pub open spec fn inbox(&self, player: Seq<char>) -> Seq<Seq<char>> {
        if self.inboxes().contains_key(player) {
            self.inboxes()[player]
        } else {
            Seq::empty()
        }
    }

    /// Well-formed: every record sits under its id and its link id, and
    /// nowhere else.
    pub open spec fn wf(&self) -> bool {
        indexed(self.records()) && 0 <= self.link_ttl() <= MAX_TTL_SECS
    }

    /// A server for `address` with no connections and empty inboxes, whose
    /// connections wait for a second participant for the default time.
    pub fn new(address: &str) -> (s: Self)
        ensures
            s.wf(),
            s.address_view() == address@,
            s.link_ttl() == DEFAULT_LINK_TTL_SECS,
            s.records() == Map::<Seq<char>, ConnectionView>::empty(),
            forall|q: Seq<char>| #[trigger] s.inbox(q) == Seq::<Seq<char>>::empty(),
    {
        Self::with_link_ttl(address, DEFAULT_LINK_TTL_SECS)
    }

    /// A server for `address` with no connections and empty inboxes, whose
    /// connections wait for a second participant for `ttl_secs` seconds.
    pub fn with_link_ttl(address: &str, ttl_secs: i64) -> (s: Self)
        requires
            0 <= ttl_secs <= MAX_TTL_SECS,
        ensures
            s.wf(),
            s.address_view() == address@,
            s.link_ttl() == ttl_secs,
            s.records() == Map::<Seq<char>, ConnectionView>::empty(),
            forall|q: Seq<char>| #[trigger] s.inbox(q) == Seq::<Seq<char>>::empty(),
    {
        let s = Server {
            address: address.to_owned(),
            connections: StringHashMap::new(),
            notifications: StringHashMap::new(),
            link_ttl_secs: ttl_secs,
        };
        assert(s.records() =~= Map::<Seq<char>, ConnectionView>::empty());
        assert(s.inboxes() =~= Map::<Seq<char>, Seq<Seq<char>>>::empty());
        s
    }

    /// Stores the newly opened connection `c` under its id and its link id.
    /// An empty participant gives `InvalidRequest`; an id or link id already
    /// stored, or the two being equal, gives `AlreadyExists`; a failure
    /// changes nothing.
    pub fn store_opened(&mut self, c: Connection) -> (r: Result<Connection, ConnectionError>)
        requires
            old(self).wf(),
            c@.players.len() == 1,
            c@.status == ConnectionStatus::Pending,
        ensures
            final(self).wf(),
            final(self).address_view() == old(self).address_view(),
            final(self).link_ttl() == old(self).link_ttl(),
            forall|q: Seq<char>| #[trigger] final(self).inbox(q) == old(self).inbox(q),
            c@.players[0].len() == 0 ==> fails_invalid(r, EMPTY_INITIATOR@),
            c@.players[0].len() > 0 ==> if !old(self).records().contains_key(c.id@)
                && !old(self).records().contains_key(c.link_id@) && c.id@ != c.link_id@ {
                &&& r matches Ok(d) && d@ == c@
                &&& final(self).records() == old(self).records().insert(c.id@, c@).insert(c.link_id@, c@)
            } else {
                r matches Err(ConnectionError::AlreadyExists)
            },
            r is Err ==> final(self).records() == old(self).records(),
    {
        if c.players[0].as_str().is_empty() {
            return Err(invalid_request(EMPTY_INITIATOR));
        }
        if self.connections.contains_key(c.id.as_str()) || self.connections.contains_key(c.link_id.as_str())
            || c.id.eq(&c.link_id) {
            return Err(ConnectionError::AlreadyExists);
        }
        let by_id = c.duplicate();
        let by_link = c.duplicate();
        self.connections.insert(c.id.clone(), by_id);
        self.connections.insert(c.link_id.clone(), by_link);
        let ghost m0 = old(self).records();
        let ghost m1 = m0.insert(c.id@, c@).insert(c.link_id@, c@);
        assert(self.records() =~= m1);
        assert forall|k: Seq<char>| #[trigger] m1.contains_key(k) implies {
            let d = m1[k];
            &&& k == d.id || k == d.link_id
            &&& d.id != d.link_id
            &&& m1.contains_key(d.id) && m1[d.id] == d
            &&& m1.contains_key(d.link_id) && m1[d.link_id] == d
            &&& well_shaped(d)
        } by {
            if k != c.id@ && k != c.link_id@ {
                assert(m0.contains_key(k));
                let d = m0[k];
                assert(m0.contains_key(d.id) && m0.contains_key(d.link_id));
            }
        }
        assert(self.inboxes() == old(self).inboxes());
        Ok(c)
    }

    /// Opens a connection for `player_id`, with fresh random id and link id,
    /// waiting for a second participant for the configured time, and stores
    /// it under both. An empty `player_id` gives `InvalidRequest`; a clock
    /// reading too far from the epoch gives `Storage`; random identifiers
    /// that clash gives `AlreadyExists`; a failure changes nothing.
    pub fn create_connection(&mut self, player_id: String) -> (r: Result<Connection, ConnectionError>)
        requires
            old(self).wf(),
        ensures
            final(self).wf(),
            final(self).address_view() == old(self).address_view(),
            final(self).link_ttl() == old(self).link_ttl(),
            forall|q: Seq<char>| #[trigger] final(self).inbox(q) == old(self).inbox(q),
            player_id@.len() == 0 ==> fails_invalid(r, EMPTY_INITIATOR@),
            player_id@.len() > 0 ==> r is Ok || clock_failed(r) || r matches Err(ConnectionError::AlreadyExists),
            r matches Ok(c) ==> {
                &&& c@.opened_by(player_id@, c.created_at as int, old(self).link_ttl())
                &&& fresh_identifiers(c@)
                &&& -CLOCK_LIMIT < c.created_at < CLOCK_LIMIT
                &&& !old(self).records().contains_key(c.id@)
                &&& !old(self).records().contains_key(c.link_id@)
                &&& final(self).records() == old(self).records().insert(c.id@, c@).insert(c.link_id@, c@)
            },
            r is Err ==> final(self).records() == old(self).records(),
    {
        if player_id.as_str().is_empty() {
            return Err(invalid_request(EMPTY_INITIATOR));
        }
        let c = match Connection::with_ttl(player_id, self.link_ttl_secs) {
            Ok(c) => c,
            Err(e) => {
                return Err(e);
            },
        };
        self.store_opened(c)
    }

    /// The connection stored under `key`, which may be its id or its link
    /// id.
    pub fn get_connection(&self, key: &str) -> (r: Result<Connection, ConnectionError>)
        ensures
            self.records().contains_key(key@) ==> (r matches Ok(c) && c@ == self.records()[key@]),
            !self.records().contains_key(key@) ==> r matches Err(ConnectionError::NotFound),
    {
        match self.connections.get(key) {
            Some(c) => Ok(c.duplicate()),
            None => Err(ConnectionError::NotFound),
        }
    }

    /// Stores `u` under its id and its link id, in place of the record `c`
    /// it updates.
    fn replace_record(&mut self, u: Connection, c: Ghost<ConnectionView>)
        requires
            old(self).wf(),
            old(self).records().contains_key(c@.id),
            old(self).records()[c@.id] == c@,
            u@.id == c@.id,
            u@.link_id == c@.link_id,
            well_shaped(u@),
        ensures
            final(self).wf(),
            final(self).records() == old(self).records().insert(c@.id, u@).insert(c@.link_id, u@),
            final(self).address_view() == old(self).address_view(),
            final(self).link_ttl() == old(self).link_ttl(),
            forall|q: Seq<char>| #[trigger] final(self).inbox(q) == old(self).inbox(q),
    {
        let by_id = u.duplicate();
        let id_key = u.id.clone();
        let link_key = u.link_id.clone();
        self.connections.insert(id_key, by_id);
        self.connections.insert(link_key, u);
        let ghost m0 = old(self).records();
        let ghost m1 = m0.insert(c@.id, u@).insert(c@.link_id, u@);
        assert(self.records() =~= m1);
        assert(m0.contains_key(c@.link_id));
        assert forall|k: Seq<char>| #[trigger] m1.contains_key(k) implies {
            let d = m1[k];
            &&& k == d.id || k == d.link_id
            &&& d.id != d.link_id
            &&& m1.contains_key(d.id) && m1[d.id] == d
            &&& m1.contains_key(d.link_id) && m1[d.link_id] == d
            &&& well_shaped(d)
        } by {
            if k != c@.id && k != c@.link_id {
                assert(m0.contains_key(k));
                let d = m0[k];
                assert(m0.contains_key(d.id) && m0.contains_key(d.link_id));
                assert(d.id != c@.id && d.id != c@.link_id && d.link_id != c@.id && d.link_id != c@.link_id);
            }
        }
        assert(self.inboxes() == old(self).inboxes());
    }

    /// Adds `player_id` as second participant of the connection stored under
    /// `link_id` (its link id, or its id), which becomes active, and notifies
    /// the first participant. An unknown key gives `NotFound`; a connection
    /// that does not have exactly one participant, or that `player_id` is
    /// already in, gives `InvalidRequest`; a failure changes nothing.
    pub fn join_connection_by_link(&mut self, link_id: &str, player_id: String) -> (r: Result<Connection, ConnectionError>)
        requires
            old(self).wf(),
        ensures
            final(self).wf(),
            final(self).address_view() == old(self).address_view(),
            final(self).link_ttl() == old(self).link_ttl(),
            !old(self).records().contains_key(link_id@) ==> r matches Err(ConnectionError::NotFound),
            old(self).records().contains_key(link_id@) ==> {
                let c = old(self).records()[link_id@];
                &&& c.players.len() != 1 ==> fails_invalid(r, MAX_PLAYERS@)
                &&& c.players.len() == 1 && c.players.contains(player_id@) ==> fails_invalid(r, ALREADY_JOINED@)
                &&& c.players.len() == 1 && !c.players.contains(player_id@) ==> {
                    &&& r matches Ok(u) && u@ == joined(c, player_id@)
                    &&& final(self).records() == old(self).records().insert(c.id, joined(c, player_id@)).insert(
                        c.link_id,
                        joined(c, player_id@),
                    )
                    &&& forall|q: Seq<char>| #[trigger] final(self).inbox(q) == if q == c.players[0] {
                        old(self).inbox(q).push(join_notice(player_id@))
                    } else {
                        old(self).inbox(q)
                    }
                }
            },
            r is Err ==> final(self).records() == old(self).records() && forall|q: Seq<char>| #[trigger]
                final(self).inbox(q) == old(self).inbox(q),
    {
        let c = match self.connections.get(link_id) {
            Some(c) => c.duplicate(),
            None => {
                return Err(ConnectionError::NotFound);
            },
        };
        let ghost cv = c@;
        assert(self.records()[link_id@] == cv);
        if c.players.len() != 1 {
            return Err(invalid_request(MAX_PLAYERS));
        }
        if c.players[0].eq(&player_id) {
            assert(cv.players[0] == player_id@);
            return Err(invalid_request(ALREADY_JOINED));
        }
        assert(!cv.players.contains(player_id@));
        let notice = join_text(&player_id);
        self.push_notification(&c.players[0], notice);
        let mut updated = c;
        updated.players.push(player_id);
        updated.status = ConnectionStatus::Active;
        assert(updated@ == joined(cv, player_id@)) by {
            assert(strings_view(updated.players@) =~= cv.players.push(player_id@));
        }
        let result = updated.duplicate();
        self.replace_record(updated, Ghost(cv));
        Ok(result)
    }

    /// Sends `content` from `player_id` inside the connection stored under
    /// `connection_id` (its id, or its link id): every other participant
    /// gets a notice of it. An unknown key gives `NotFound`; a sender who is
    /// not a participant gives `InvalidRequest`; a clock reading too far from
    /// the epoch gives `Storage`; a failure changes nothing.
    pub fn send_message(&mut self, connection_id: &str, player_id: String, content: String) -> (r: Result<Message, ConnectionError>)
        requires
            old(self).wf(),
        ensures
            final(self).wf(),
            final(self).address_view() == old(self).address_view(),
            final(self).link_ttl() == old(self).link_ttl(),
            final(self).records() == old(self).records(),
            !old(self).records().contains_key(connection_id@) ==> r matches Err(ConnectionError::NotFound),
            old(self).records().contains_key(connection_id@) ==> {
                let c = old(self).records()[connection_id@];
                &&& !c.players.contains(player_id@) ==> fails_invalid(r, NOT_A_PARTICIPANT@)
                &&& c.players.contains(player_id@) ==> r is Ok || clock_failed(r)
                &&& c.players.contains(player_id@) && r is Ok ==> {
                    &&& r matches Ok(m) && m.from@ == player_id@ && m.content@ == content@ && hyphenated_v4(m.id@)
                        && -CLOCK_LIMIT < m.timestamp < CLOCK_LIMIT
                    &&& forall|q: Seq<char>| #[trigger] final(self).inbox(q) == if c.players.contains(q) && q != player_id@ {
                        old(self).inbox(q).push(message_notice(player_id@, content@))
                    } else {
                        old(self).inbox(q)
                    }
                }
            },
            r is Err ==> forall|q: Seq<char>| #[trigger] final(self).inbox(q) == old(self).inbox(q),
    {
        let players = match self.connections.get(connection_id) {
            Some(c) => copy_strings(&c.players),
            None => {
                return Err(ConnectionError::NotFound);
            },
        };
        let ghost c = old(self).records()[connection_id@];
        assert(old(self).records().contains_key(connection_id@));
        assert(well_shaped(c));
        assert(strings_view(players@) == c.players);
        if !holds(&players, &player_id) {
            return Err(invalid_request(NOT_A_PARTICIPANT));
        }
        let now = match unix_now() {
            Ok(t) => t,
            Err(e) => {
                return Err(e);
            },
        };
        let notice = message_text(&player_id, &content);
        let mut i: usize = 0;
        while i < players.len()
            invariant
                self.wf(),
                old(self).wf(),
                self.records() == old(self).records(),
                self.address_view() == old(self).address_view(),
                self.link_ttl() == old(self).link_ttl(),
                c == old(self).records()[connection_id@],
                strings_view(players@) == c.players,
                well_shaped(c),
                i <= players@.len(),
                notice@ == message_notice(player_id@, content@),
                forall|q: Seq<char>| #[trigger] self.inbox(q) == if c.players.subrange(0, i as int).contains(q) && q != player_id@ {
                    old(self).inbox(q).push(notice@)
                } else {
                    old(self).inbox(q)
                },
            decreases players@.len() - i,
        {
            let ghost before = *self;
            let ghost prev = c.players.subrange(0, i as int);
            let ghost next = c.players.subrange(0, i + 1);
            if !players[i].eq(&player_id) {
                self.push_notification(&players[i], notice.clone());
            }
            assert forall|q: Seq<char>| #[trigger] self.inbox(q) == if next.contains(q) && q != player_id@ {
                old(self).inbox(q).push(notice@)
            } else {
                old(self).inbox(q)
            } by {
                let p = c.players[i as int];
                assert(before.inbox(q) == self.inbox(q) || q == p);
                if next.contains(q) {
                    let t = choose|t: int| 0 <= t < next.len() && next[t] == q;
                    if t < i {
                        assert(prev[t] == q);
                    }
                }
                if prev.contains(q) {
                    let t = choose|t: int| 0 <= t < prev.len() && prev[t] == q;
                    assert(next[t] == q);
                    if q == p {
                        assert(c.players[t] == c.players[i as int]);
                    }
                }
                if q == p {
                    assert(next[i as int] == q);
                }
            }
            i = i + 1;
        }
        assert(c.players.subrange(0, players@.len() as int) =~= c.players);
        let id = fresh_id();
        Ok(Message { id, from: player_id, content, timestamp: now })
    }

    /// Appends `note` to the inbox of `player`.
    fn push_notification(&mut self, player: &String, note: String)
        ensures
            final(self).records() == old(self).records(),
            final(self).address_view() == old(self).address_view(),
            final(self).link_ttl() == old(self).link_ttl(),
            forall|q: Seq<char>| #[trigger] final(self).inbox(q) == if q == player@ {
                old(self).inbox(q).push(note@)
            } else {
                old(self).inbox(q)
            },
    {
        let mut list = match self.notifications.get(player.as_str()) {
            Some(v) => copy_strings(v),
            None => Vec::new(),
        };
        let ghost before = list@;
        assert(strings_view(before) =~= old(self).inbox(player@));
        list.push(note);
        assert(strings_view(list@) =~= strings_view(before).push(note@));
        self.notifications.insert(player.clone(), list);
        assert(self.records() =~= old(self).records());
    }

    /// Adds a notification for `player_id`, as delivered by the inbound
    /// notification stream.
    pub fn deliver_notification(&mut self, player_id: String, content: String)
        requires
            old(self).wf(),
        ensures
            final(self).wf(),
            final(self).records() == old(self).records(),
            final(self).address_view() == old(self).address_view(),
            final(self).link_ttl() == old(self).link_ttl(),
            forall|q: Seq<char>| #[trigger] final(self).inbox(q) == if q == player_id@ {
                old(self).inbox(q).push(content@)
            } else {
                old(self).inbox(q)
            },
    {
        self.push_notification(&player_id, content);
    }

    /// Applies what the inbound stream handed over and tells the consumer
    /// what to do next. A notification lands in its recipient's inbox before
    /// the message is committed; an unreadable message is committed and
    /// dropped; an error makes the consumer back off and try again, forever.
    pub fn handle_inbound(&mut self, event: Inbound) -> (a: ConsumerAction)
        requires
            old(self).wf(),
        ensures
            final(self).wf(),
            final(self).records() == old(self).records(),
            final(self).address_view() == old(self).address_view(),
            final(self).link_ttl() == old(self).link_ttl(),
            event matches Inbound::Notification { player_id, content } ==> {
                &&& a == ConsumerAction::Commit
                &&& forall|q: Seq<char>| #[trigger] final(self).inbox(q) == if q == player_id@ {
                    old(self).inbox(q).push(content@)
                } else {
                    old(self).inbox(q)
                }
            },
            event is Unreadable ==> a == ConsumerAction::Commit,
            event is Failed ==> a == ConsumerAction::Backoff,
            !(event is Notification) ==> forall|q: Seq<char>| #[trigger] final(self).inbox(q) == old(self).inbox(q),
    {
        match event {
            Inbound::Notification { player_id, content } => {
                self.deliver_notification(player_id, content);
                ConsumerAction::Commit
            },
            Inbound::Unreadable => ConsumerAction::Commit,
            Inbound::Failed => ConsumerAction::Backoff,
        }
    }

    /// The notifications waiting for `player_id`, oldest first; reading them
    /// does not remove them.
    pub fn get_player_notifications(&self, player_id: &str) -> (r: Vec<String>)
        ensures
            strings_view(r@) == self.inbox(player_id@),
    {
        match self.notifications.get(player_id) {
            Some(v) => copy_strings(v),
            None => {
                let r: Vec<String> = Vec::new();
                assert(strings_view(r@) =~= Seq::<Seq<char>>::empty());
                r
            },
        }
    }

    /// Empties the inbox of `player_id`; tells whether it held anything.
    pub fn acknowledge_notifications(&mut self, player_id: &str) -> (had: bool)
        requires
            old(self).wf(),
        ensures
            final(self).wf(),
            had == (old(self).inbox(player_id@).len() > 0),
            final(self).records() == old(self).records(),
            final(self).address_view() == old(self).address_view(),
            final(self).link_ttl() == old(self).link_ttl(),
            forall|q: Seq<char>| #[trigger] final(self).inbox(q) == if q == player_id@ {
                Seq::<Seq<char>>::empty()
            } else {
                old(self).inbox(q)
            },
    {
        let had = match self.notifications.get(player_id) {
            Some(v) => v.len() > 0,
            None => false,
        };
        self.notifications.remove(player_id);
        assert(self.records() =~= old(self).records());
        assert(self.inboxes() =~= old(self).inboxes().remove(player_id@));
        had
    }
}

/// Round trip: a connection stored by `create_connection` reads back
/// unchanged through its id and through its link id.
pub proof fn lemma_create_round_trip(records: Map<Seq<char>, ConnectionView>, c: ConnectionView)
    ensures
        ({
            let stored = records.insert(c.id, c).insert(c.link_id, c);
            &&& stored.contains_key(c.id) && stored[c.id] == c
            &&& stored.contains_key(c.link_id) && stored[c.link_id] == c
        }),
{
}

/// In a well-indexed store, whichever key a record is found under, the
/// lookups by its id and by its link id give that same record.
pub proof fn lemma_lookups_agree(records: Map<Seq<char>, ConnectionView>, key: Seq<char>)
    requires
        indexed(records),
        records.contains_key(key),
    ensures
        records.contains_key(records[key].id),
        records.contains_key(records[key].link_id),
        records[records[key].id] == records[key],
        records[records[key].link_id] == records[key],
{
}

} // verus!
