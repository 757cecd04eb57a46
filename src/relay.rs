use vstd::prelude::*;

verus! {

/// Topic of life-cycle events: created, joined, acknowledged, connected.
pub const EVENTS_TOPIC: &'static str = "connection-events";

/// Topic of chat messages.
pub const MESSAGES_TOPIC: &'static str = "connection-messages";

/// Topic the inbound notifications arrive on.
pub const NOTIFICATIONS_TOPIC: &'static str = "user-notifications";

/// Consumer group of the inbound notification stream.
pub const CONSUMER_GROUP: &'static str = "friends-connect-server";

/// Seconds a publish may wait in the producer's queue before it is dropped.
pub const PUBLISH_TIMEOUT_SECS: u64 = 1;

/// Where the broker is and how to sign in to it.
#[derive(Debug, Clone)]
pub struct RedpandaConfig {
    pub bootstrap_servers: String,
    pub username: String,
    pub password: String,
}

/// Client settings as (key, value) character sequences.
pub open spec fn settings_view(v: Seq<(String, String)>) -> Seq<(Seq<char>, Seq<char>)> {
    v.map_values(|p: (String, String)| (p.0@, p.1@))
}

/// The settings that sign a client in with SCRAM over TLS.
pub open spec fn sasl_spec(c: RedpandaConfig) -> Seq<(Seq<char>, Seq<char>)> {
    seq![
        ("sasl.mechanism"@, "SCRAM-SHA-256"@),
        ("security.protocol"@, "SASL_SSL"@),
        ("sasl.username"@, c.username@),
        ("sasl.password"@, c.password@),
    ]
}

/// The settings of a client of the broker, signed in.
pub open spec fn client_spec(c: RedpandaConfig) -> Seq<(Seq<char>, Seq<char>)> {
    seq![("bootstrap.servers"@, c.bootstrap_servers@)] + sasl_spec(c)
}

/// The settings of the outbound producer: none without bootstrap servers;
/// signed in only when both a username and a password are given.
pub open spec fn producer_spec(c: RedpandaConfig) -> Option<Seq<(Seq<char>, Seq<char>)>> {
    if c.bootstrap_servers@.len() == 0 {
        None
    } else if c.username@.len() > 0 && c.password@.len() > 0 {
        Some(client_spec(c))
    } else {
        Some(seq![("bootstrap.servers"@, c.bootstrap_servers@)])
    }
}

/// The settings of the inbound consumer: a signed-in client in its group,
/// reading from the earliest offset.
pub open spec fn consumer_spec(c: RedpandaConfig) -> Seq<(Seq<char>, Seq<char>)> {
    client_spec(c) + seq![("group.id"@, CONSUMER_GROUP@), ("auto.offset.reset"@, "earliest"@)]
}

fn setting(key: &str, value: &str) -> (r: (String, String))
    ensures
        r.0@ == key@,
        r.1@ == value@,
{
    (key.to_owned(), value.to_owned())
}

impl RedpandaConfig {
    fn push_sasl(&self, v: &mut Vec<(String, String)>)
        ensures
            settings_view(final(v)@) == settings_view(old(v)@) + sasl_spec(*self),
    {
        let ghost start = settings_view(v@);
        v.push(setting("sasl.mechanism", "SCRAM-SHA-256"));
        v.push(setting("security.protocol", "SASL_SSL"));
        v.push(setting("sasl.username", self.username.as_str()));
        v.push(setting("sasl.password", self.password.as_str()));
        assert(settings_view(v@) =~= start + sasl_spec(*self));
    }

    /// The settings of a client of the broker, signed in.
    pub fn client_settings(&self) -> (r: Vec<(String, String)>)
        ensures
            settings_view(r@) == client_spec(*self),
    {
        let mut v: Vec<(String, String)> = Vec::new();
        v.push(setting("bootstrap.servers", self.bootstrap_servers.as_str()));
        assert(settings_view(v@) =~= seq![("bootstrap.servers"@, self.bootstrap_servers@)]);
        self.push_sasl(&mut v);
        v
    }

    /// The settings of the outbound producer, if there is to be one.
    pub fn producer_settings(&self) -> (r: Option<Vec<(String, String)>>)
        ensures
            match producer_spec(*self) {
                None => r is None,
                Some(s) => r matches Some(v) && settings_view(v@) == s,
            },
    {
        if self.bootstrap_servers.as_str().is_empty() {
            return None;
        }
        if !self.username.as_str().is_empty() && !self.password.as_str().is_empty() {
            return Some(self.client_settings());
        }
        let mut v: Vec<(String, String)> = Vec::new();
        v.push(setting("bootstrap.servers", self.bootstrap_servers.as_str()));
        assert(settings_view(v@) =~= seq![("bootstrap.servers"@, self.bootstrap_servers@)]);
        Some(v)
    }

    /// The settings of the inbound consumer.
    pub fn consumer_settings(&self) -> (r: Vec<(String, String)>)
        ensures
            settings_view(r@) == consumer_spec(*self),
    {
        let mut v = self.client_settings();
        let ghost start = settings_view(v@);
        v.push(setting("group.id", CONSUMER_GROUP));
        v.push(setting("auto.offset.reset", "earliest"));
        assert(settings_view(v@) =~= start + seq![("group.id"@, CONSUMER_GROUP@), ("auto.offset.reset"@, "earliest"@)]);
        v
    }
}

} // verus!
