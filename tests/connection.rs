use std::time::{SystemTime, UNIX_EPOCH};

use friends_connect::connection::{Connection, ConnectionStatus, DEFAULT_LINK_TTL_SECS};
use uuid::Uuid;

#[test]
fn test_connection_does_not_expire_with_two_players() {
    let mut connection = Connection::new("player1".to_string()).unwrap();
    connection.players.push("player2".to_string());

    // Set expires_at to past time
    connection.expires_at = 0;

    // Should not be expired since it has two players
    assert!(!connection.is_expired());
}

#[test]
fn test_connection_timestamps_are_set() {
    let connection = Connection::new("player1".to_string()).unwrap();
    let now = SystemTime::now()
        .duration_since(UNIX_EPOCH)
        .unwrap()
        .as_secs() as i64;

    // Created timestamp should be close to now
    assert!(connection.created_at > now - 1);
    assert!(connection.created_at <= now);

    // Expires timestamp should be 1 week after creation
    assert_eq!(connection.expires_at, connection.created_at + 604800);
}

#[test]
fn test_connection_expiration_status() {
    let mut connection = Connection::new("player1".to_string()).unwrap();

    // New connection should be pending
    assert_eq!(connection.status, ConnectionStatus::Pending);

    // Manually expire the connection
    connection.expires_at = 0;
    assert!(connection.is_expired());
}

#[test]
fn test_connection_ids_are_unique() {
    let connection1 = Connection::new("player1".to_string()).unwrap();
    let connection2 = Connection::new("player2".to_string()).unwrap();

    assert_ne!(connection1.id, connection2.id);
    assert_ne!(connection1.link_id, connection2.link_id);
}

#[test]
fn test_connection_ids_are_valid_uuids() {
    let connection = Connection::new("player1".to_string()).unwrap();

    // Test that both id and link_id are valid UUIDs
    assert!(Uuid::parse_str(&connection.id).is_ok());
    assert!(Uuid::parse_str(&connection.link_id).is_ok());
}

#[test]
fn test_new_connection() {
    let connection = Connection::new("player123".to_string()).unwrap();
    assert_eq!(connection.players[0], "player123");
    assert_eq!(connection.status, ConnectionStatus::Pending);
}

#[test]
fn test_create_new_connection() {
    let player_id = "player123".to_string();
    let connection = Connection {
        id: "test_id".to_string(),
        link_id: "test_link".to_string(),
        players: vec![player_id],
        created_at: 0,
        status: ConnectionStatus::Pending,
        expires_at: 0,
    };

    assert_eq!(connection.players.len(), 1);
    assert_eq!(connection.status, ConnectionStatus::Pending);
}

fn fixed(players: &[&str], expires_at: i64) -> Connection {
    Connection {
        id: "id".to_string(),
        link_id: "link".to_string(),
        players: players.iter().map(|p| p.to_string()).collect(),
        created_at: 0,
        status: ConnectionStatus::Pending,
        expires_at,
    }
}

#[test]
fn expiry_is_reached_at_the_expiry_time() {
    let c = fixed(&["a"], 100);
    assert!(!c.is_expired_at(99));
    assert!(c.is_expired_at(100));
    assert!(c.is_expired_at(101));
}

#[test]
fn two_players_never_expire_at_any_time() {
    let c = fixed(&["a", "b"], 100);
    assert!(!c.is_expired_at(100));
    assert!(!c.is_expired_at(i64::MAX));
}

#[test]
fn new_connection_is_not_expired_yet() {
    let c = Connection::new("player1".to_string()).unwrap();
    assert!(!c.is_expired());
    assert_eq!(c.expires_at - c.created_at, DEFAULT_LINK_TTL_SECS);
}

#[test]
fn connection_with_ttl_uses_that_ttl() {
    let c = Connection::with_ttl("player1".to_string(), 600).unwrap();
    assert_eq!(c.expires_at, c.created_at + 600);
    assert_eq!(c.players, vec!["player1".to_string()]);
    let zero = Connection::with_ttl("player1".to_string(), 0).unwrap();
    assert_eq!(zero.expires_at, zero.created_at);
}

#[test]
fn identifiers_are_hyphenated_uuids_and_distinct() {
    let c = Connection::new("player1".to_string()).unwrap();
    for id in [&c.id, &c.link_id] {
        assert_eq!(id.len(), 36);
        for (i, ch) in id.chars().enumerate() {
            match i {
                8 | 13 | 18 | 23 => assert_eq!(ch, '-'),
                14 => assert_eq!(ch, '4'),
                _ => assert!(ch.is_ascii_digit() || ('a'..='f').contains(&ch)),
            }
        }
    }
    assert_ne!(c.id, c.link_id);
}

#[test]
fn opened_takes_the_given_values() {
    let c = Connection::opened(
        "p".to_string(),
        "i".to_string(),
        "l".to_string(),
        -5,
        10,
    );
    assert_eq!(c.id, "i");
    assert_eq!(c.link_id, "l");
    assert_eq!(c.players, vec!["p".to_string()]);
    assert_eq!(c.created_at, -5);
    assert_eq!(c.expires_at, 5);
    assert_eq!(c.status, ConnectionStatus::Pending);
    assert!(c.is_expired_at(5));
    assert!(!c.is_expired_at(4));
}

#[test]
fn duplicate_copies_every_field() {
    let c = fixed(&["a", "b"], 42);
    let d = c.duplicate();
    assert_eq!(d.id, c.id);
    assert_eq!(d.link_id, c.link_id);
    assert_eq!(d.players, c.players);
    assert_eq!(d.created_at, c.created_at);
    assert_eq!(d.status, c.status);
    assert_eq!(d.expires_at, c.expires_at);
}
