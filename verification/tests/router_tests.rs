use std::collections::HashMap;

use pacman_net::client_server::{CreateUserRequest, JoinGameRequest, LoginRequest, MessageEnum};
use pacman_net::router::{db_query_for, handle_request, DbAnswer, DbQuery, Leaderboard};
use pacman_net::server_client::{
    CreateUserResponse, JoinGameResponse, LoginResponse, Message as ServerMessage,
    UserGameStatus,
};
use pacman_net::table::ConnectionTable;
use pacman_net::{Connection, HostAddr, LeaderboardEntry, NetAddr};

fn conn(port: u16) -> Connection {
    Connection::Tcp(NetAddr { host: HostAddr::V4(0x0a000001), port })
}

fn addr(port: u16) -> NetAddr {
    NetAddr { host: HostAddr::V4(0x0a000002), port }
}

/// A stand-in for the flat-file credential store: usernames to passwords.
struct Creds {
    users: HashMap<String, String>,
}

impl Creds {
    fn new() -> Creds {
        Creds { users: HashMap::new() }
    }

    fn answer(&mut self, q: Option<DbQuery>) -> Option<DbAnswer> {
        match q {
            None => None,
            Some(DbQuery::CreateUser { user, passwd }) => {
                if self.users.contains_key(&user) {
                    Some(DbAnswer::Created(false))
                } else {
                    self.users.insert(user, passwd);
                    Some(DbAnswer::Created(true))
                }
            },
            Some(DbQuery::VerifyLogin { user, passwd }) => {
                Some(DbAnswer::Verified(self.users.get(&user) == Some(&passwd)))
            },
            Some(DbQuery::ChangePassword { user, old_passwd, new_passwd }) => {
                if self.users.get(&user) == Some(&old_passwd) {
                    self.users.insert(user, new_passwd);
                    Some(DbAnswer::Changed(true))
                } else {
                    Some(DbAnswer::Changed(false))
                }
            },
        }
    }
}

/// One server step: look up the credential query, run it against the
/// store, dispatch.
fn serve(
    table: &mut ConnectionTable,
    lb: &mut Leaderboard,
    creds: &mut Creds,
    c: Connection,
    msg: MessageEnum,
    now: u64,
) -> Option<ServerMessage> {
    let q = db_query_for(table, &c, &msg);
    let a = creds.answer(q);
    handle_request(table, lb, &c, &msg, now, a)
}

#[test]
fn create_user_twice() {
    let mut table = ConnectionTable::new();
    let mut lb = Leaderboard::new();
    let mut creds = Creds::new();
    let req = || {
        MessageEnum::CreateUserRequest(CreateUserRequest {
            user: "ana".to_string(),
            passwd: "x".to_string(),
        })
    };
    let first = serve(&mut table, &mut lb, &mut creds, conn(1), req(), 0);
    assert_eq!(
        first,
        Some(ServerMessage::CreateUserResponse(CreateUserResponse::Accepted))
    );
    let second = serve(&mut table, &mut lb, &mut creds, conn(1), req(), 1);
    assert_eq!(
        second,
        Some(ServerMessage::CreateUserResponse(CreateUserResponse::Rejected))
    );
}

#[test]
fn create_user_rejects_bad_usernames() {
    let mut table = ConnectionTable::new();
    let mut lb = Leaderboard::new();
    let mut creds = Creds::new();
    let bad = MessageEnum::CreateUserRequest(CreateUserRequest {
        user: "a b".to_string(),
        passwd: "x".to_string(),
    });
    assert_eq!(
        serve(&mut table, &mut lb, &mut creds, conn(1), bad, 0),
        Some(ServerMessage::CreateUserResponse(CreateUserResponse::Rejected))
    );
    let long = MessageEnum::CreateUserRequest(CreateUserRequest {
        user: "umnomeabsurdamentelongodemais".to_string(),
        passwd: "x".to_string(),
    });
    assert_eq!(
        serve(&mut table, &mut lb, &mut creds, conn(1), long, 0),
        Some(ServerMessage::CreateUserResponse(CreateUserResponse::Rejected))
    );
    // the twenty-character limit itself is fine
    let edge = MessageEnum::CreateUserRequest(CreateUserRequest {
        user: "exatamentevinteeumok".to_string(),
        passwd: "x".to_string(),
    });
    assert_eq!(
        serve(&mut table, &mut lb, &mut creds, conn(1), edge, 0),
        Some(ServerMessage::CreateUserResponse(CreateUserResponse::Accepted))
    );
}

#[test]
fn concurrent_logins_one_winner() {
    let mut table = ConnectionTable::new();
    let mut lb = Leaderboard::new();
    let mut creds = Creds::new();
    serve(
        &mut table,
        &mut lb,
        &mut creds,
        conn(1),
        MessageEnum::CreateUserRequest(CreateUserRequest {
            user: "ana".to_string(),
            passwd: "x".to_string(),
        }),
        0,
    );
    assert_eq!(
        serve(&mut table, &mut lb, &mut creds, conn(1), MessageEnum::ConnectRequest, 0),
        Some(ServerMessage::ConnectResponse)
    );
    assert_eq!(
        serve(&mut table, &mut lb, &mut creds, conn(2), MessageEnum::ConnectRequest, 0),
        Some(ServerMessage::ConnectResponse)
    );
    let login = || {
        MessageEnum::LoginRequest(LoginRequest {
            user: "ana".to_string(),
            passwd: "x".to_string(),
        })
    };
    // two connections race for the same name: the lock serializes them
    // and exactly the first wins
    assert_eq!(
        serve(&mut table, &mut lb, &mut creds, conn(1), login(), 1),
        Some(ServerMessage::LoginResponse(LoginResponse::Accepted))
    );
    assert_eq!(
        serve(&mut table, &mut lb, &mut creds, conn(2), login(), 1),
        Some(ServerMessage::LoginResponse(LoginResponse::Rejected))
    );
}

#[test]
fn wrong_password_is_rejected() {
    let mut table = ConnectionTable::new();
    let mut lb = Leaderboard::new();
    let mut creds = Creds::new();
    serve(
        &mut table,
        &mut lb,
        &mut creds,
        conn(1),
        MessageEnum::CreateUserRequest(CreateUserRequest {
            user: "ana".to_string(),
            passwd: "x".to_string(),
        }),
        0,
    );
    serve(&mut table, &mut lb, &mut creds, conn(1), MessageEnum::ConnectRequest, 0);
    assert_eq!(
        serve(
            &mut table,
            &mut lb,
            &mut creds,
            conn(1),
            MessageEnum::LoginRequest(LoginRequest {
                user: "ana".to_string(),
                passwd: "errada".to_string(),
            }),
            1,
        ),
        Some(ServerMessage::LoginResponse(LoginResponse::Rejected))
    );
}

#[test]
fn duplicate_connect_is_silent() {
    let mut table = ConnectionTable::new();
    let mut lb = Leaderboard::new();
    let mut creds = Creds::new();
    assert_eq!(
        serve(&mut table, &mut lb, &mut creds, conn(1), MessageEnum::ConnectRequest, 0),
        Some(ServerMessage::ConnectResponse)
    );
    assert_eq!(
        serve(&mut table, &mut lb, &mut creds, conn(1), MessageEnum::ConnectRequest, 0),
        None
    );
}

#[test]
fn host_disconnect_shows_joiner_idle() {
    let mut table = ConnectionTable::new();
    let mut lb = Leaderboard::new();
    let mut creds = Creds::new();
    for (c, name) in [(conn(1), "ana"), (conn(2), "bob")] {
        serve(
            &mut table,
            &mut lb,
            &mut creds,
            c,
            MessageEnum::CreateUserRequest(CreateUserRequest {
                user: name.to_string(),
                passwd: "x".to_string(),
            }),
            0,
        );
        serve(&mut table, &mut lb, &mut creds, c, MessageEnum::ConnectRequest, 0);
        serve(
            &mut table,
            &mut lb,
            &mut creds,
            c,
            MessageEnum::LoginRequest(LoginRequest {
                user: name.to_string(),
                passwd: "x".to_string(),
            }),
            0,
        );
    }
    serve(
        &mut table,
        &mut lb,
        &mut creds,
        conn(1),
        MessageEnum::CreateGameRequest(pacman_net::client_server::CreateGameRequest {
            listener_addr: addr(7000),
        }),
        1,
    );
    let joined = serve(
        &mut table,
        &mut lb,
        &mut creds,
        conn(2),
        MessageEnum::JoinGameRequest(JoinGameRequest { pacman: "ana".to_string() }),
        1,
    );
    assert_eq!(
        joined,
        Some(ServerMessage::JoinGameResponse(JoinGameResponse::Accepted(addr(7000))))
    );
    // the hosting user disconnects
    assert_eq!(
        serve(&mut table, &mut lb, &mut creds, conn(1), MessageEnum::Disconnect, 2),
        None
    );
    // any connection asking for the user list now sees bob idle
    let reply = serve(
        &mut table,
        &mut lb,
        &mut creds,
        conn(2),
        MessageEnum::ConnectedUsersRequest,
        3,
    );
    match reply {
        Some(ServerMessage::ConnectedUsersResponse(r)) => {
            assert_eq!(r.users.len(), 1);
            assert_eq!(r.users[0].user, "bob".to_string());
            assert_eq!(r.users[0].status, UserGameStatus::Idle);
        },
        other => panic!("unexpected reply: {:?}", other),
    }
}

#[test]
fn silent_heartbeat_leads_to_eviction() {
    let mut table = ConnectionTable::new();
    let mut lb = Leaderboard::new();
    let mut creds = Creds::new();
    serve(
        &mut table,
        &mut lb,
        &mut creds,
        conn(1),
        MessageEnum::CreateUserRequest(CreateUserRequest {
            user: "ana".to_string(),
            passwd: "x".to_string(),
        }),
        0,
    );
    serve(&mut table, &mut lb, &mut creds, conn(1), MessageEnum::ConnectRequest, 0);
    serve(
        &mut table,
        &mut lb,
        &mut creds,
        conn(1),
        MessageEnum::LoginRequest(LoginRequest {
            user: "ana".to_string(),
            passwd: "x".to_string(),
        }),
        0,
    );
    serve(&mut table, &mut lb, &mut creds, conn(2), MessageEnum::ConnectRequest, 0);
    // the first client keeps quiet; the second heartbeats in time
    serve(
        &mut table,
        &mut lb,
        &mut creds,
        conn(2),
        MessageEnum::Heartbeat,
        pacman_net::HEARTBEAT_TIMEOUT_MS,
    );
    let removed = table.evict_expired(pacman_net::HEARTBEAT_TIMEOUT_MS + 1);
    assert_eq!(removed, vec![conn(1)]);
    // the next user listing no longer shows the evicted client's login
    let reply = serve(
        &mut table,
        &mut lb,
        &mut creds,
        conn(2),
        MessageEnum::ConnectedUsersRequest,
        pacman_net::HEARTBEAT_TIMEOUT_MS + 2,
    );
    match reply {
        Some(ServerMessage::ConnectedUsersResponse(r)) => {
            assert!(r.users.is_empty());
        },
        other => panic!("unexpected reply: {:?}", other),
    }
}

#[test]
fn leaderboard_keeps_ten_best_sorted() {
    let mut table = ConnectionTable::new();
    let mut lb = Leaderboard::new();
    let mut creds = Creds::new();
    for i in 0..12u64 {
        let reply = serve(
            &mut table,
            &mut lb,
            &mut creds,
            conn(1),
            MessageEnum::AddLeaderboardEntry(LeaderboardEntry {
                score: i,
                user: format!("u{}", i),
            }),
            i,
        );
        assert_eq!(reply, None);
    }
    let reply = serve(&mut table, &mut lb, &mut creds, conn(1), MessageEnum::LeaderboardRequest, 99);
    match reply {
        Some(ServerMessage::LeaderboardResponse(r)) => {
            assert_eq!(r.top10.len(), 10);
            // descending from 11 down to 2: the two lowest fell off
            for (k, e) in r.top10.iter().enumerate() {
                assert_eq!(e.score, 11 - k as u64);
            }
        },
        other => panic!("unexpected reply: {:?}", other),
    }
}

#[test]
fn quit_game_has_no_reply() {
    let mut table = ConnectionTable::new();
    let mut lb = Leaderboard::new();
    let mut creds = Creds::new();
    assert_eq!(
        serve(&mut table, &mut lb, &mut creds, conn(1), MessageEnum::QuitGameRequest, 0),
        None
    );
}

#[test]
fn leaderboard_ties_keep_arrival_order() {
    let mut lb = Leaderboard::new();
    lb.add_leaderboard_entry(LeaderboardEntry { score: 5, user: "ana".to_string() });
    lb.add_leaderboard_entry(LeaderboardEntry { score: 5, user: "bob".to_string() });
    lb.add_leaderboard_entry(LeaderboardEntry { score: 9, user: "eva".to_string() });
    let rows = lb.get_leaderboard();
    assert_eq!(rows.len(), 3);
    assert_eq!(rows[0].user, "eva");
    // an equal score slots in after the earlier one
    assert_eq!(rows[1].user, "ana");
    assert_eq!(rows[2].user, "bob");
}
