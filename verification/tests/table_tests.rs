use pacman_net::server_client::UserGameStatus;
use pacman_net::table::ConnectionTable;
use pacman_net::{Connection, HostAddr, NetAddr, HEARTBEAT_TIMEOUT_MS};

fn conn(port: u16) -> Connection {
    Connection::Udp(NetAddr { host: HostAddr::V4(0x0a000001), port })
}

fn addr(port: u16) -> NetAddr {
    NetAddr { host: HostAddr::V4(0x0a000002), port }
}

#[test]
fn insert_is_idempotent() {
    let mut t = ConnectionTable::new();
    assert!(t.insert(&conn(1), 100));
    // second call with the same identity is refused and changes nothing
    assert!(!t.insert(&conn(1), 200));
    assert_eq!(t.get_connections(), vec![conn(1)]);
    // a different identity still gets in
    assert!(t.insert(&conn(2), 100));
    assert_eq!(t.get_connections().len(), 2);
}

#[test]
fn login_requires_known_connection() {
    let mut t = ConnectionTable::new();
    assert!(!t.login(&conn(1), &"ana".to_string()));
    assert!(t.insert(&conn(1), 0));
    assert!(t.login(&conn(1), &"ana".to_string()));
    assert_eq!(t.user_of(&conn(1)), Some("ana".to_string()));
}

#[test]
fn one_login_per_username() {
    let mut t = ConnectionTable::new();
    assert!(t.insert(&conn(1), 0));
    assert!(t.insert(&conn(2), 0));
    assert!(t.login(&conn(1), &"ana".to_string()));
    // the username is taken: the concurrent attempt loses
    assert!(!t.login(&conn(2), &"ana".to_string()));
    assert_eq!(t.user_of(&conn(2)), None);
    // after a logout the name is free again
    assert!(t.logout(&conn(1)));
    assert!(t.login(&conn(2), &"ana".to_string()));
}

#[test]
fn one_login_per_connection() {
    let mut t = ConnectionTable::new();
    assert!(t.insert(&conn(1), 0));
    assert!(t.login(&conn(1), &"ana".to_string()));
    // a session already logged in keeps its identity
    assert!(!t.login(&conn(1), &"eva".to_string()));
    assert_eq!(t.user_of(&conn(1)), Some("ana".to_string()));
}

#[test]
fn create_and_join_game() {
    let mut t = ConnectionTable::new();
    assert!(t.insert(&conn(1), 0));
    assert!(t.insert(&conn(2), 0));
    assert!(t.login(&conn(1), &"ana".to_string()));
    assert!(t.login(&conn(2), &"bob".to_string()));
    // hosting needs a login and an idle role
    assert!(!t.create_game(&conn(3), addr(9)));
    assert!(t.create_game(&conn(1), addr(9)));
    assert!(!t.create_game(&conn(1), addr(10)));
    // joining yields the host's listener address
    assert_eq!(t.join_game(&conn(2), &"ana".to_string()), Some(addr(9)));
    // the joiner is no longer idle, so it cannot join twice
    assert_eq!(t.join_game(&conn(2), &"ana".to_string()), None);
}

#[test]
fn join_rejects_missing_or_busy_host() {
    let mut t = ConnectionTable::new();
    assert!(t.insert(&conn(1), 0));
    assert!(t.insert(&conn(2), 0));
    assert!(t.insert(&conn(3), 0));
    assert!(t.login(&conn(1), &"ana".to_string()));
    assert!(t.login(&conn(2), &"bob".to_string()));
    assert!(t.login(&conn(3), &"eva".to_string()));
    // no such host
    assert_eq!(t.join_game(&conn(2), &"gil".to_string()), None);
    // host not hosting
    assert_eq!(t.join_game(&conn(2), &"ana".to_string()), None);
    assert!(t.create_game(&conn(1), addr(9)));
    assert_eq!(t.join_game(&conn(2), &"ana".to_string()), Some(addr(9)));
    // slot already occupied: first come, first served
    assert_eq!(t.join_game(&conn(3), &"ana".to_string()), None);
}

#[test]
fn kick_reverts_both_sides() {
    let mut t = ConnectionTable::new();
    assert!(t.insert(&conn(1), 0));
    assert!(t.insert(&conn(2), 0));
    assert!(t.login(&conn(1), &"ana".to_string()));
    assert!(t.login(&conn(2), &"bob".to_string()));
    assert!(t.create_game(&conn(1), addr(9)));
    assert_eq!(t.join_game(&conn(2), &"ana".to_string()), Some(addr(9)));
    // kicking the host also reverts the joined partner
    assert!(t.kick(&conn(1)));
    let statuses = t.user_statuses();
    for s in &statuses {
        assert!(matches!(
            s.status,
            UserGameStatus::Idle
        ));
    }
    // both are idle: kicking again is a no-op
    assert!(!t.kick(&conn(1)));
    assert!(!t.kick(&conn(2)));
    // and the slot is gone: bob can host now and ana can join him
    assert!(t.create_game(&conn(2), addr(11)));
    assert_eq!(t.join_game(&conn(1), &"bob".to_string()), Some(addr(11)));
}

#[test]
fn kick_of_joiner_frees_the_slot() {
    let mut t = ConnectionTable::new();
    assert!(t.insert(&conn(1), 0));
    assert!(t.insert(&conn(2), 0));
    assert!(t.insert(&conn(3), 0));
    assert!(t.login(&conn(1), &"ana".to_string()));
    assert!(t.login(&conn(2), &"bob".to_string()));
    assert!(t.login(&conn(3), &"eva".to_string()));
    assert!(t.create_game(&conn(1), addr(9)));
    assert_eq!(t.join_game(&conn(2), &"ana".to_string()), Some(addr(9)));
    assert!(t.kick(&conn(2)));
    // the host still hosts, with a free slot: another joiner fits
    assert_eq!(t.join_game(&conn(3), &"ana".to_string()), Some(addr(9)));
}

#[test]
fn disconnect_of_host_reverts_joiner_to_idle() {
    let mut t = ConnectionTable::new();
    assert!(t.insert(&conn(1), 0));
    assert!(t.insert(&conn(2), 0));
    assert!(t.login(&conn(1), &"ana".to_string()));
    assert!(t.login(&conn(2), &"bob".to_string()));
    assert!(t.create_game(&conn(1), addr(9)));
    assert_eq!(t.join_game(&conn(2), &"ana".to_string()), Some(addr(9)));
    // the host disconnects entirely
    assert!(t.remove(&conn(1)));
    let statuses = t.user_statuses();
    assert_eq!(statuses.len(), 1);
    assert_eq!(statuses[0].user, "bob".to_string());
    assert!(matches!(
        statuses[0].status,
        UserGameStatus::Idle
    ));
}

#[test]
fn remove_is_total() {
    let mut t = ConnectionTable::new();
    assert!(!t.remove(&conn(1)));
    assert!(t.insert(&conn(1), 0));
    assert!(t.remove(&conn(1)));
    assert!(!t.remove(&conn(1)));
    assert!(t.get_connections().is_empty());
}

#[test]
fn heartbeat_eviction() {
    let mut t = ConnectionTable::new();
    assert!(t.insert(&conn(1), 0));
    assert!(t.insert(&conn(2), 0));
    // the second connection keeps its heartbeat fresh
    t.set_heartbeat(&conn(2), HEARTBEAT_TIMEOUT_MS);
    let now = HEARTBEAT_TIMEOUT_MS + 1;
    let removed = t.evict_expired(now);
    assert_eq!(removed, vec![conn(1)]);
    assert_eq!(t.get_connections(), vec![conn(2)]);
    // heartbeats exactly at the limit survive: strict comparison
    let removed2 = t.evict_expired(2 * HEARTBEAT_TIMEOUT_MS);
    assert!(removed2.is_empty());
    let removed3 = t.evict_expired(2 * HEARTBEAT_TIMEOUT_MS + 1);
    assert_eq!(removed3, vec![conn(2)]);
}

#[test]
fn eviction_cascades_to_partner() {
    let mut t = ConnectionTable::new();
    assert!(t.insert(&conn(1), 0));
    assert!(t.insert(&conn(2), 0));
    assert!(t.login(&conn(1), &"ana".to_string()));
    assert!(t.login(&conn(2), &"bob".to_string()));
    assert!(t.create_game(&conn(1), addr(9)));
    assert_eq!(t.join_game(&conn(2), &"ana".to_string()), Some(addr(9)));
    // only the host's heartbeat goes stale
    t.set_heartbeat(&conn(2), HEARTBEAT_TIMEOUT_MS + 500);
    let removed = t.evict_expired(HEARTBEAT_TIMEOUT_MS + 1000);
    assert_eq!(removed, vec![conn(1)]);
    let statuses = t.user_statuses();
    assert_eq!(statuses.len(), 1);
    assert_eq!(statuses[0].user, "bob".to_string());
    assert!(matches!(
        statuses[0].status,
        UserGameStatus::Idle
    ));
}

#[test]
fn user_statuses_reports_partners() {
    let mut t = ConnectionTable::new();
    assert!(t.insert(&conn(1), 0));
    assert!(t.insert(&conn(2), 0));
    assert!(t.insert(&conn(3), 0));
    assert!(t.login(&conn(1), &"ana".to_string()));
    assert!(t.login(&conn(2), &"bob".to_string()));
    assert!(t.login(&conn(3), &"eva".to_string()));
    assert!(t.create_game(&conn(1), addr(9)));
    assert_eq!(t.join_game(&conn(2), &"ana".to_string()), Some(addr(9)));
    assert!(t.create_game(&conn(3), addr(10)));
    let statuses = t.user_statuses();
    assert_eq!(statuses.len(), 3);
    for s in &statuses {
        if s.user == "ana" {
            assert_eq!(s.status, UserGameStatus::Hosting(Some("bob".to_string())));
        } else if s.user == "bob" {
            assert_eq!(s.status, UserGameStatus::Joined("ana".to_string()));
        } else {
            assert_eq!(s.user, "eva");
            assert_eq!(s.status, UserGameStatus::Hosting(None));
        }
    }
    // set_heartbeat on an unknown identity is tolerated
    t.set_heartbeat(&conn(9), 123);
    assert_eq!(t.get_users().len(), 3);
}

#[test]
fn logout_is_idempotent_and_cascades() {
    let mut t = ConnectionTable::new();
    assert!(t.insert(&conn(1), 0));
    assert!(t.login(&conn(1), &"ana".to_string()));
    assert!(t.create_game(&conn(1), addr(9)));
    assert!(t.logout(&conn(1)));
    assert_eq!(t.user_of(&conn(1)), None);
    // the hosting slot went with the login
    assert!(t.login(&conn(1), &"ana".to_string()));
    assert!(t.create_game(&conn(1), addr(9)));
    // a second logout without login reports false
    assert!(t.logout(&conn(1)));
    assert!(!t.logout(&conn(1)));
}
