use chrono::Utc;

use friends_connect::error::ConnectionError;
use friends_connect::memory::{InMemoryConnectionManager, NOT_PENDING};
use friends_connect::models::{Connection, ConnectionStatus};
use friends_connect::validation::{EMPTY_ID, EMPTY_INITIATOR, EMPTY_LABEL};

// In memory.rs tests
#[test]
fn test_connection_recovery() {
    let mut manager = InMemoryConnectionManager::new();

    // Create a test connection
    let connection = Connection {
        id: "test-id".to_string(),
        initiator_id: "user1".to_string(),
        recipient_id: Some("user2".to_string()),
        initiator_label: "Friend".to_string(),
        recipient_label: Some("My Friend".to_string()),
        status: ConnectionStatus::Active,
        created_at: Utc::now().timestamp(),
        connected_at: Some(Utc::now().timestamp()),
    };

    // Recover the connection
    assert!(manager.recover_connection(connection.clone()).is_ok());

    // Verify connection was recovered
    let recovered = manager.get_connection("test-id").unwrap();
    assert_eq!(recovered.id, connection.id);
    assert_eq!(recovered.status, ConnectionStatus::Active);

    // Verify duplicate recovery fails
    assert!(matches!(
        manager.recover_connection(connection),
        Err(ConnectionError::AlreadyExists)
    ));
}

#[test]
fn test_create_and_accept_connection() {
    let mut manager = InMemoryConnectionManager::new();

    // Create connection
    let request = manager
        .create_connection("user1".to_string(), "Friend".to_string())
        .unwrap();

    // Accept connection
    let connection = manager
        .accept_connection(&request.connection_id, "user2".to_string(), "My Friend".to_string())
        .unwrap();

    assert_eq!(connection.status, ConnectionStatus::Active);
    assert_eq!(connection.recipient_id, Some("user2".to_string()));
    assert_eq!(connection.recipient_label, Some("My Friend".to_string()));
}

#[test]
fn test_list_connections() {
    let mut manager = InMemoryConnectionManager::new();

    // Create two connections
    let request1 = manager
        .create_connection("user1".to_string(), "Friend 1".to_string())
        .unwrap();

    let request2 = manager
        .create_connection("user1".to_string(), "Friend 2".to_string())
        .unwrap();

    // Accept both connections
    manager
        .accept_connection(&request1.connection_id, "user2".to_string(), "My Friend 1".to_string())
        .unwrap();

    manager
        .accept_connection(&request2.connection_id, "user3".to_string(), "My Friend 2".to_string())
        .unwrap();

    // List connections for user1
    let connections = manager.list_connections("user1").unwrap();
    assert_eq!(connections.len(), 2);
}

#[test]
fn test_connection_recovery_validation() {
    let mut manager = InMemoryConnectionManager::new();

    // Test 1: Valid pending connection
    let pending_connection = Connection {
        id: "test-pending".to_string(),
        initiator_id: "user1".to_string(),
        recipient_id: None,
        initiator_label: "Friend".to_string(),
        recipient_label: None,
        status: ConnectionStatus::Pending,
        created_at: Utc::now().timestamp(),
        connected_at: None,
    };
    assert!(manager.recover_connection(pending_connection).is_ok());

    // Test 2: Valid active connection
    let active_connection = Connection {
        id: "test-active".to_string(),
        initiator_id: "user1".to_string(),
        recipient_id: Some("user2".to_string()),
        initiator_label: "Friend".to_string(),
        recipient_label: Some("My Friend".to_string()),
        status: ConnectionStatus::Active,
        created_at: Utc::now().timestamp(),
        connected_at: Some(Utc::now().timestamp()),
    };
    assert!(manager.recover_connection(active_connection.clone()).is_ok());

    // Test 3: Duplicate recovery attempt
    assert!(matches!(
        manager.recover_connection(active_connection),
        Err(ConnectionError::AlreadyExists)
    ));

    // Test 4: Invalid active connection (missing recipient)
    let invalid_active = Connection {
        id: "test-invalid-active".to_string(),
        initiator_id: "user1".to_string(),
        recipient_id: None, // Missing recipient
        initiator_label: "Friend".to_string(),
        recipient_label: None,
        status: ConnectionStatus::Active,
        created_at: Utc::now().timestamp(),
        connected_at: Some(Utc::now().timestamp()),
    };
    assert!(matches!(
        manager.recover_connection(invalid_active),
        Err(ConnectionError::InvalidRequest(_))
    ));

    // Test 5: Invalid active connection (missing connected_at)
    let invalid_active_timing = Connection {
        id: "test-invalid-timing".to_string(),
        initiator_id: "user1".to_string(),
        recipient_id: Some("user2".to_string()),
        initiator_label: "Friend".to_string(),
        recipient_label: Some("My Friend".to_string()),
        status: ConnectionStatus::Active,
        created_at: Utc::now().timestamp(),
        connected_at: None, // Missing connected_at
    };
    assert!(matches!(
        manager.recover_connection(invalid_active_timing),
        Err(ConnectionError::InvalidRequest(_))
    ));
}

#[test]
fn test_connection_recovery_persistence() {
    let mut manager = InMemoryConnectionManager::new();

    // Create and recover a connection
    let connection = Connection {
        id: "test-persist".to_string(),
        initiator_id: "user1".to_string(),
        recipient_id: Some("user2".to_string()),
        initiator_label: "Friend".to_string(),
        recipient_label: Some("My Friend".to_string()),
        status: ConnectionStatus::Active,
        created_at: Utc::now().timestamp(),
        connected_at: Some(Utc::now().timestamp()),
    };

    // Recover the connection
    manager.recover_connection(connection.clone()).unwrap();

    // Verify it can be retrieved
    let recovered = manager.get_connection("test-persist").unwrap();
    assert_eq!(recovered.id, connection.id);
    assert_eq!(recovered.status, connection.status);
    assert_eq!(recovered.initiator_id, connection.initiator_id);
    assert_eq!(recovered.recipient_id, connection.recipient_id);
}

fn pending(id: &str) -> Connection {
    Connection {
        id: id.to_string(),
        initiator_id: "user1".to_string(),
        recipient_id: None,
        initiator_label: "Friend".to_string(),
        recipient_label: None,
        status: ConnectionStatus::Pending,
        created_at: 10,
        connected_at: None,
    }
}

fn reason<T: std::fmt::Debug>(r: Result<T, ConnectionError>) -> String {
    match r {
        Err(ConnectionError::InvalidRequest(m)) => m,
        other => panic!("expected InvalidRequest, got {:?}", other),
    }
}

#[test]
fn created_connection_is_pending_without_recipient() {
    let mut manager = InMemoryConnectionManager::new();
    let request = manager
        .create_connection("user1".to_string(), "Friend".to_string())
        .unwrap();
    assert_eq!(request.from_profile_id, "user1");
    assert_eq!(request.to_profile_id, None);
    assert_eq!(request.connection_id.len(), 36);
    let stored = manager.get_connection(&request.connection_id).unwrap();
    assert_eq!(stored.status, ConnectionStatus::Pending);
    assert_eq!(stored.recipient_id, None);
    assert_eq!(stored.recipient_label, None);
    assert_eq!(stored.connected_at, None);
    assert_eq!(stored.initiator_label, "Friend");
    assert_eq!(request.expires_at, stored.created_at + 604800);
    let again = manager.get_request(&request.connection_id).unwrap();
    assert_eq!(again.connection_id, request.connection_id);
    assert_eq!(again.expires_at, request.expires_at);
}

#[test]
fn created_ids_differ() {
    let mut manager = InMemoryConnectionManager::new();
    let a = manager.create_connection("user1".to_string(), "A".to_string()).unwrap();
    let b = manager.create_connection("user1".to_string(), "B".to_string()).unwrap();
    assert_ne!(a.connection_id, b.connection_id);
}

#[test]
fn request_ttl_is_configurable() {
    let mut manager = InMemoryConnectionManager::with_request_ttl(600);
    let request = manager.create_connection("user1".to_string(), "A".to_string()).unwrap();
    let stored = manager.get_connection(&request.connection_id).unwrap();
    assert_eq!(request.expires_at, stored.created_at + 600);
}

#[test]
fn create_refuses_empty_initiator_or_label() {
    let mut manager = InMemoryConnectionManager::new();
    assert_eq!(
        reason(manager.create_connection(String::new(), "A".to_string())),
        EMPTY_INITIATOR
    );
    assert_eq!(
        reason(manager.create_connection("user1".to_string(), String::new())),
        EMPTY_LABEL
    );
    assert_eq!(manager.list_all_connections().unwrap().len(), 0);
}

#[test]
fn accept_twice_fails_as_not_pending() {
    let mut manager = InMemoryConnectionManager::new();
    let request = manager.create_connection("user1".to_string(), "A".to_string()).unwrap();
    let first = manager
        .accept_connection(&request.connection_id, "user2".to_string(), "B".to_string())
        .unwrap();
    assert!(first.connected_at.is_some());
    assert_eq!(
        reason(manager.accept_connection(&request.connection_id, "user3".to_string(), "C".to_string())),
        NOT_PENDING
    );
    let stored = manager.get_connection(&request.connection_id).unwrap();
    assert_eq!(stored.recipient_id, Some("user2".to_string()));
}

#[test]
fn accept_of_rejected_fails() {
    let mut manager = InMemoryConnectionManager::new();
    let mut c = pending("r1");
    c.status = ConnectionStatus::Rejected;
    c.recipient_id = Some("user2".to_string());
    manager.recover_connection(c).unwrap();
    assert_eq!(
        reason(manager.accept_connection("r1", "user3".to_string(), "C".to_string())),
        NOT_PENDING
    );
}

#[test]
fn accept_of_unknown_id_is_not_found() {
    let mut manager = InMemoryConnectionManager::new();
    assert!(matches!(
        manager.accept_connection("nope", "user2".to_string(), "B".to_string()),
        Err(ConnectionError::NotFound)
    ));
}

#[test]
fn recover_twice_with_other_payload_conflicts() {
    let mut manager = InMemoryConnectionManager::new();
    manager.recover_connection(pending("same")).unwrap();
    let mut other = pending("same");
    other.initiator_id = "someone-else".to_string();
    assert!(matches!(
        manager.recover_connection(other),
        Err(ConnectionError::AlreadyExists)
    ));
    assert_eq!(manager.get_connection("same").unwrap().initiator_id, "user1");
}

#[test]
fn recover_round_trips_every_field() {
    let mut manager = InMemoryConnectionManager::new();
    let mut c = pending("full");
    c.status = ConnectionStatus::Active;
    c.recipient_id = Some("user2".to_string());
    c.recipient_label = Some("Pal".to_string());
    c.connected_at = Some(20);
    manager.recover_connection(c.clone()).unwrap();
    let back = manager.get_connection("full").unwrap();
    assert_eq!(back.id, c.id);
    assert_eq!(back.initiator_id, c.initiator_id);
    assert_eq!(back.recipient_id, c.recipient_id);
    assert_eq!(back.initiator_label, c.initiator_label);
    assert_eq!(back.recipient_label, c.recipient_label);
    assert_eq!(back.status, c.status);
    assert_eq!(back.created_at, c.created_at);
    assert_eq!(back.connected_at, c.connected_at);
}

#[test]
fn delete_twice_reports_not_found_both_times() {
    let mut manager = InMemoryConnectionManager::new();
    manager.recover_connection(pending("gone")).unwrap();
    assert!(manager.delete_connection("gone").is_ok());
    assert!(matches!(manager.delete_connection("gone"), Err(ConnectionError::NotFound)));
    assert!(matches!(manager.delete_connection("gone"), Err(ConnectionError::NotFound)));
    assert!(matches!(manager.get_connection("gone"), Err(ConnectionError::NotFound)));
}

#[test]
fn delete_keeps_the_other_connections() {
    let mut manager = InMemoryConnectionManager::new();
    manager.recover_connection(pending("a")).unwrap();
    manager.recover_connection(pending("b")).unwrap();
    manager.recover_connection(pending("c")).unwrap();
    manager.delete_connection("b").unwrap();
    let ids: Vec<String> = manager
        .list_all_connections()
        .unwrap()
        .into_iter()
        .map(|c| c.id)
        .collect();
    assert_eq!(ids, vec!["a".to_string(), "c".to_string()]);
}

#[test]
fn list_selects_initiator_and_recipient() {
    let mut manager = InMemoryConnectionManager::new();
    manager.recover_connection(pending("a")).unwrap();
    let mut b = pending("b");
    b.initiator_id = "user9".to_string();
    b.status = ConnectionStatus::Rejected;
    b.recipient_id = Some("user1".to_string());
    manager.recover_connection(b).unwrap();
    let mut c = pending("c");
    c.initiator_id = "user9".to_string();
    manager.recover_connection(c).unwrap();
    let ids: Vec<String> = manager
        .list_connections("user1")
        .unwrap()
        .into_iter()
        .map(|c| c.id)
        .collect();
    assert_eq!(ids, vec!["a".to_string(), "b".to_string()]);
    assert_eq!(manager.list_connections("nobody").unwrap().len(), 0);
    assert_eq!(manager.list_all_connections().unwrap().len(), 3);
}

#[test]
fn missing_request_is_not_found() {
    let manager = InMemoryConnectionManager::new();
    assert!(matches!(manager.get_request("x"), Err(ConnectionError::NotFound)));
}

#[test]
fn default_manager_is_empty() {
    let manager = InMemoryConnectionManager::default();
    assert_eq!(manager.list_all_connections().unwrap().len(), 0);
    assert!(matches!(manager.get_connection("x"), Err(ConnectionError::NotFound)));
}

#[test]
fn issue_with_stores_the_given_id_and_time() {
    let mut manager = InMemoryConnectionManager::with_request_ttl(100);
    let req = manager
        .issue_with("id-1".to_string(), 50, "user1".to_string(), "Friend".to_string())
        .unwrap();
    assert_eq!(req.connection_id, "id-1");
    assert_eq!(req.from_profile_id, "user1");
    assert_eq!(req.to_profile_id, None);
    assert_eq!(req.expires_at, 150);
    let stored = manager.get_connection("id-1").unwrap();
    assert_eq!(stored.created_at, 50);
    assert_eq!(stored.status, ConnectionStatus::Pending);
    assert_eq!(stored.recipient_id, None);
    assert_eq!(stored.initiator_label, "Friend");
    assert_eq!(manager.get_request("id-1").unwrap().expires_at, 150);
}

#[test]
fn issue_with_refuses_a_taken_or_empty_id() {
    let mut manager = InMemoryConnectionManager::new();
    manager
        .issue_with("id-1".to_string(), 0, "user1".to_string(), "A".to_string())
        .unwrap();
    assert!(matches!(
        manager.issue_with("id-1".to_string(), 0, "user2".to_string(), "B".to_string()),
        Err(ConnectionError::AlreadyExists)
    ));
    manager.delete_connection("id-1").unwrap();
    assert!(matches!(
        manager.issue_with("id-1".to_string(), 0, "user2".to_string(), "B".to_string()),
        Err(ConnectionError::AlreadyExists)
    ));
    assert_eq!(
        reason(manager.issue_with(String::new(), 0, "user2".to_string(), String::new())),
        EMPTY_ID
    );
    assert_eq!(
        reason(manager.issue_with("id-2".to_string(), 0, String::new(), "B".to_string())),
        EMPTY_INITIATOR
    );
    assert_eq!(
        reason(manager.issue_with("id-2".to_string(), 0, "user2".to_string(), String::new())),
        EMPTY_LABEL
    );
    assert_eq!(manager.list_all_connections().unwrap().len(), 0);
}
