use pacman_net::client_server::{
    ChangePasswordRequest, CreateGameRequest, CreateUserRequest, JoinGameRequest, LoginRequest,
    Message as ClientMessage, MessageEnum,
};
use pacman_net::server_client::{
    ChangePasswordResponse, ConnectedUsersResponse, CreateGameResponse, CreateUserResponse,
    JoinGameResponse, LeaderboardResponse, LoginResponse, Message as ServerMessage,
    UserGameStatus, UserStatusEntry,
};
use pacman_net::{Connection, HostAddr, LeaderboardEntry, NetAddr, PacmanMessage};

fn addr(port: u16) -> NetAddr {
    NetAddr { host: HostAddr::V4(0x7f000001), port }
}

fn conn() -> Connection {
    Connection::Udp(addr(4000))
}

fn roundtrip_client(msg: MessageEnum) {
    let m = ClientMessage { connection: conn(), message: msg };
    let bytes = m.to_bytes();
    let back = ClientMessage::from_bytes(&bytes).expect("decode failed");
    assert_eq!(m, back);
}

fn roundtrip_server(m: ServerMessage) {
    let bytes = m.to_bytes();
    let back = ServerMessage::from_bytes(&bytes).expect("decode failed");
    assert_eq!(m, back);
}

#[test]
fn client_unit_variants_roundtrip() {
    roundtrip_client(MessageEnum::ConnectRequest);
    roundtrip_client(MessageEnum::Disconnect);
    roundtrip_client(MessageEnum::Heartbeat);
    roundtrip_client(MessageEnum::LogoutRequest);
    roundtrip_client(MessageEnum::QuitGameRequest);
    roundtrip_client(MessageEnum::ConnectedUsersRequest);
    roundtrip_client(MessageEnum::LeaderboardRequest);
}

#[test]
fn client_payload_variants_roundtrip() {
    roundtrip_client(MessageEnum::CreateUserRequest(CreateUserRequest {
        user: "ana".to_string(),
        passwd: "x".to_string(),
    }));
    roundtrip_client(MessageEnum::LoginRequest(LoginRequest {
        user: "ana".to_string(),
        passwd: "x".to_string(),
    }));
    roundtrip_client(MessageEnum::ChangePasswordRequest(ChangePasswordRequest {
        old_passwd: "velha".to_string(),
        new_passwd: "nova".to_string(),
    }));
    roundtrip_client(MessageEnum::CreateGameRequest(CreateGameRequest {
        listener_addr: addr(5999),
    }));
    roundtrip_client(MessageEnum::JoinGameRequest(JoinGameRequest {
        pacman: "bob".to_string(),
    }));
    roundtrip_client(MessageEnum::AddLeaderboardEntry(LeaderboardEntry {
        score: 42,
        user: "ana".to_string(),
    }));
}

#[test]
fn client_unicode_and_empty_strings_roundtrip() {
    roundtrip_client(MessageEnum::LoginRequest(LoginRequest {
        user: "ανα-π€cman".to_string(),
        passwd: String::new(),
    }));
}

#[test]
fn client_tcp_and_v6_connections_roundtrip() {
    let m = ClientMessage {
        connection: Connection::Tcp(NetAddr { host: HostAddr::V6(0xdead_beef), port: 65535 }),
        message: MessageEnum::ConnectRequest,
    };
    let bytes = m.to_bytes();
    assert_eq!(ClientMessage::from_bytes(&bytes), Some(m));
}

#[test]
fn server_unit_variants_roundtrip() {
    roundtrip_server(ServerMessage::Heartbeat);
    roundtrip_server(ServerMessage::ConnectResponse);
    roundtrip_server(ServerMessage::LogoutResponse);
    roundtrip_server(ServerMessage::NotConnected);
}

#[test]
fn server_reply_variants_roundtrip() {
    roundtrip_server(ServerMessage::CreateUserResponse(CreateUserResponse::Accepted));
    roundtrip_server(ServerMessage::CreateUserResponse(CreateUserResponse::Rejected));
    roundtrip_server(ServerMessage::LoginResponse(LoginResponse::Accepted));
    roundtrip_server(ServerMessage::LoginResponse(LoginResponse::Rejected));
    roundtrip_server(ServerMessage::ChangePasswordResponse(ChangePasswordResponse::Accepted));
    roundtrip_server(ServerMessage::ChangePasswordResponse(ChangePasswordResponse::Rejected));
    roundtrip_server(ServerMessage::CreateGameResponse(CreateGameResponse::Accepted));
    roundtrip_server(ServerMessage::CreateGameResponse(CreateGameResponse::Rejected));
    roundtrip_server(ServerMessage::JoinGameResponse(JoinGameResponse::Accepted(addr(6001))));
    roundtrip_server(ServerMessage::JoinGameResponse(JoinGameResponse::Rejected));
}

#[test]
fn server_list_variants_roundtrip() {
    roundtrip_server(ServerMessage::ConnectedUsersResponse(ConnectedUsersResponse {
        users: vec![
            UserStatusEntry { user: "ana".to_string(), status: UserGameStatus::Idle },
            UserStatusEntry {
                user: "bob".to_string(),
                status: UserGameStatus::Hosting(Some("ana".to_string())),
            },
            UserStatusEntry {
                user: "eva".to_string(),
                status: UserGameStatus::Hosting(None),
            },
            UserStatusEntry {
                user: "gil".to_string(),
                status: UserGameStatus::Joined("eva".to_string()),
            },
        ],
    }));
    roundtrip_server(ServerMessage::LeaderboardResponse(LeaderboardResponse {
        top10: vec![
            LeaderboardEntry { score: 99, user: "ana".to_string() },
            LeaderboardEntry { score: 7, user: "bob".to_string() },
        ],
    }));
    roundtrip_server(ServerMessage::ConnectedUsersResponse(ConnectedUsersResponse {
        users: Vec::new(),
    }));
    roundtrip_server(ServerMessage::LeaderboardResponse(LeaderboardResponse {
        top10: Vec::new(),
    }));
}

#[test]
fn decode_rejects_noise() {
    assert_eq!(ClientMessage::from_bytes(&[]), None);
    assert_eq!(ServerMessage::from_bytes(&[]), None);
    // unknown transport tag
    assert_eq!(ClientMessage::from_bytes(&[9, 0, 0, 0]), None);
    // unknown reply tag
    assert_eq!(ServerMessage::from_bytes(&[200]), None);
    // truncated: connection only, no message tag
    let m = ClientMessage { connection: conn(), message: MessageEnum::Heartbeat };
    let bytes = m.to_bytes();
    assert_eq!(ClientMessage::from_bytes(&bytes[..bytes.len() - 1]), None);
}

#[test]
fn decode_rejects_trailing_bytes() {
    let m = ServerMessage::Heartbeat;
    let mut bytes = m.to_bytes();
    bytes.push(0);
    assert_eq!(ServerMessage::from_bytes(&bytes), None);
}

#[test]
fn decode_rejects_invalid_utf8() {
    let m = ClientMessage {
        connection: conn(),
        message: MessageEnum::JoinGameRequest(JoinGameRequest { pacman: "zé".to_string() }),
    };
    let mut bytes = m.to_bytes();
    // corrupt a byte inside the UTF-8 payload of the username
    let n = bytes.len();
    bytes[n - 1] = 0xff;
    assert_eq!(ClientMessage::from_bytes(&bytes), None);
}

#[test]
fn encoding_is_not_the_identity() {
    // the codec must actually transform: the bytes of a username on the
    // wire sit behind a connection, a tag and a length prefix
    let m = ClientMessage {
        connection: conn(),
        message: MessageEnum::JoinGameRequest(JoinGameRequest { pacman: "bob".to_string() }),
    };
    let bytes = m.to_bytes();
    assert_ne!(bytes.as_slice(), "bob".as_bytes());
    assert!(bytes.len() > "bob".len());
}
