use vstd::prelude::*;

verus! {

/// Seconds between two pings to a websocket client.
pub const HEARTBEAT_INTERVAL_SECS: u64 = 30;

/// Seconds of silence after which a websocket client counts as gone.
pub const CLIENT_TIMEOUT_SECS: u64 = 60;

/// A request a websocket client sent, with the payload fields it carried.
pub enum WsEvent {
    /// Follow the connection `connection_id`, when the payload named one.
    JoinConnection { connection_id: Option<String> },
    /// Send `content`, when the payload held some.
    SendMessage { content: Option<String> },
    /// A request of another kind.
    Unknown,
}

/// What the websocket endpoint does about a client's request.
pub enum WsAction {
    /// Announce that the client follows `connection_id`.
    PublishJoin { connection_id: String },
    /// Publish `content` as a message inside `connection_id`.
    PublishMessage { connection_id: String, content: String },
    /// Nothing to do: a field the request needs was missing.
    Ignore,
    /// Report a request of unknown kind.
    ReportUnknown,
}

/// The request kind named `event_type`, with the payload fields it uses.
pub fn classify(event_type: &str, connection_id: Option<String>, content: Option<String>) -> (e: WsEvent)
    ensures
        event_type@ == "join_connection"@ ==> e == (WsEvent::JoinConnection { connection_id }),
        event_type@ == "send_message"@ ==> e == (WsEvent::SendMessage { content }),
        event_type@ != "join_connection"@ && event_type@ != "send_message"@ ==> e is Unknown,
{
    proof {
        reveal_strlit("join_connection");
        reveal_strlit("send_message");
        assert("join_connection"@.len() != "send_message"@.len());
    }
    let kind = event_type.to_owned();
    if kind.eq(&"join_connection".to_owned()) {
        WsEvent::JoinConnection { connection_id }
    } else if kind.eq(&"send_message".to_owned()) {
        WsEvent::SendMessage { content }
    } else {
        WsEvent::Unknown
    }
}

/// The state of one websocket client: who it is and which connection it
/// follows, once it has said so.
pub struct WsSession {
    pub player_id: String,
    pub connection_id: Option<String>,
}

impl WsSession {
    /// A client that follows no connection yet.
    pub fn new(player_id: String) -> (s: Self)
        ensures
            s.player_id == player_id,
            s.connection_id is None,
    {
        WsSession { player_id, connection_id: None }
    }

    /// Takes one request of the client. Joining makes the client follow the
    /// named connection and announces it; sending publishes the content in
    /// the followed connection, and is ignored until the client follows one.
    pub fn handle(&mut self, event: WsEvent) -> (a: WsAction)
        ensures
            final(self).player_id == old(self).player_id,
            match event {
                WsEvent::JoinConnection { connection_id: Some(c) } => {
                    &&& final(self).connection_id == Some(c)
                    &&& a == (WsAction::PublishJoin { connection_id: c })
                },
                WsEvent::JoinConnection { connection_id: None } => {
                    &&& final(self).connection_id == old(self).connection_id
                    &&& a is Ignore
                },
                WsEvent::SendMessage { content } => {
                    &&& final(self).connection_id == old(self).connection_id
                    &&& match (content, old(self).connection_id) {
                        (Some(m), Some(c)) => a == (WsAction::PublishMessage { connection_id: c, content: m }),
                        _ => a is Ignore,
                    }
                },
                WsEvent::Unknown => {
                    &&& final(self).connection_id == old(self).connection_id
                    &&& a is ReportUnknown
                },
            },
    {
        match event {
            WsEvent::JoinConnection { connection_id: Some(c) } => {
                self.connection_id = Some(c.clone());
                WsAction::PublishJoin { connection_id: c }
            },
            WsEvent::JoinConnection { connection_id: None } => WsAction::Ignore,
            WsEvent::SendMessage { content: Some(m) } => match &self.connection_id {
                Some(c) => WsAction::PublishMessage { connection_id: c.clone(), content: m },
                None => WsAction::Ignore,
            },
            WsEvent::SendMessage { content: None } => WsAction::Ignore,
            WsEvent::Unknown => WsAction::ReportUnknown,
        }
    }

    /// Whether a client silent for `elapsed_secs` seconds counts as gone.
    pub fn heartbeat_lapsed(elapsed_secs: u64) -> (r: bool)
        ensures
            r == (elapsed_secs > CLIENT_TIMEOUT_SECS),
    {
        elapsed_secs > CLIENT_TIMEOUT_SECS
    }
}

} // verus!
