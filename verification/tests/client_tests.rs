use pacman_net::client::{client_step, random_direction, ClientEvent, ClientState};
use pacman_net::client_server::MessageEnum;
use pacman_net::event::{watch, ChannelEvent, WatchErr, WatchStep, SERVER_TIMEOUT_MS};
use pacman_net::heartbeat::{heartbeat_step, HeartbeatStep};
use pacman_net::router::username_valid;
use pacman_net::server_client::{
    CreateGameResponse, JoinGameResponse, LoginResponse, Message as ServerMessage,
};
use pacman_net::shell::{Command, Shell};
use pacman_net::{
    current_time, Connection, Direction, HostAddr, NetAddr, HEARTBEAT_TIMEOUT_MS,
};

fn addr(port: u16) -> NetAddr {
    NetAddr { host: HostAddr::V4(0x7f000001), port }
}

fn strings(words: &[&str]) -> Vec<String> {
    words.iter().map(|w| w.to_string()).collect()
}

#[test]
fn watch_matches_times_out_and_disconnects() {
    // a matching message within the deadline is returned
    let r = watch(1000, 2000, ChannelEvent::Received(7u32), true);
    assert!(matches!(r, WatchStep::Matched(7)));
    // a non-matching message is dropped and the wait goes on
    let r = watch(1000, 2000, ChannelEvent::Received(7u32), false);
    assert!(matches!(r, WatchStep::KeepWaiting));
    // nothing this tick: keep waiting
    let r: WatchStep<u32> = watch(1000, 2000, ChannelEvent::TimedOut, false);
    assert!(matches!(r, WatchStep::KeepWaiting));
    // past the deadline the watch fails even if a message arrived
    let r = watch(0, SERVER_TIMEOUT_MS + 1, ChannelEvent::Received(7u32), true);
    assert!(matches!(r, WatchStep::Fail(WatchErr::Timeout)));
    // at the deadline exactly, the wait still runs
    let r: WatchStep<u32> = watch(0, SERVER_TIMEOUT_MS, ChannelEvent::TimedOut, false);
    assert!(matches!(r, WatchStep::KeepWaiting));
    // a closed channel is fatal
    let r: WatchStep<u32> = watch(1000, 2000, ChannelEvent::Disconnected, false);
    assert!(matches!(r, WatchStep::Fail(WatchErr::Disconnection)));
    // a clock running backwards counts as no time passed
    let r: WatchStep<u32> = watch(5000, 1000, ChannelEvent::TimedOut, false);
    assert!(matches!(r, WatchStep::KeepWaiting));
}

#[test]
fn heartbeat_filter_absorbs_and_forwards() {
    // a heartbeat refreshes the timestamp and is not handed on
    let (t, step) = heartbeat_step(100, 200, ChannelEvent::Received(ServerMessage::Heartbeat));
    assert_eq!(t, 200);
    assert!(matches!(step, HeartbeatStep::Absorb));
    // any other message is forwarded unchanged
    let (t, step) =
        heartbeat_step(100, 200, ChannelEvent::Received(ServerMessage::ConnectResponse));
    assert_eq!(t, 100);
    match step {
        HeartbeatStep::Forward(m) => assert_eq!(m, ServerMessage::ConnectResponse),
        other => panic!("unexpected step: {:?}", other),
    }
    // silence past the timeout calls for a shutdown
    let (_, step) = heartbeat_step(0, HEARTBEAT_TIMEOUT_MS + 1, ChannelEvent::TimedOut);
    assert!(matches!(step, HeartbeatStep::Shutdown));
    // silence at the timeout exactly does not
    let (_, step) = heartbeat_step(0, HEARTBEAT_TIMEOUT_MS, ChannelEvent::TimedOut);
    assert!(matches!(step, HeartbeatStep::Idle));
    // a closed raw channel stops the filter
    let (_, step) = heartbeat_step(100, 200, ChannelEvent::Disconnected);
    assert!(matches!(step, HeartbeatStep::Stop));
}

#[test]
fn shell_parses_known_commands() {
    let shell = Shell::new(strings(&["novo", "entra", "tchau"]));
    assert_eq!(
        shell.parse(&strings(&["novo", "ana", "x"])),
        Some(Command::CreateUser { user: "ana".to_string(), passwd: "x".to_string() })
    );
    assert_eq!(
        shell.parse(&strings(&["entra", "ana", "x"])),
        Some(Command::Login { user: "ana".to_string(), passwd: "x".to_string() })
    );
    assert_eq!(shell.parse(&strings(&["tchau"])), Some(Command::Quit));
    // wrong arity is refused
    assert_eq!(shell.parse(&strings(&["novo", "ana"])), None);
    assert_eq!(shell.parse(&strings(&["tchau", "x"])), None);
    // a word this state does not offer is refused even if well formed
    assert_eq!(shell.parse(&strings(&["lideres"])), None);
    // an empty line is refused
    assert_eq!(shell.parse(&Vec::new()), None);
}

#[test]
fn shell_parses_game_commands() {
    let shell = Shell::new(strings(&["move", "atraso", "encerra"]));
    assert_eq!(shell.parse(&strings(&["move", "w"])), Some(Command::Move { dir: 'w' }));
    assert_eq!(shell.parse(&strings(&["move", "d"])), Some(Command::Move { dir: 'd' }));
    // only the four movement keys pass
    assert_eq!(shell.parse(&strings(&["move", "x"])), None);
    assert_eq!(shell.parse(&strings(&["move", "ws"])), None);
    assert_eq!(shell.parse(&strings(&["atraso"])), Some(Command::Latency));
    assert_eq!(shell.parse(&strings(&["encerra"])), Some(Command::EndGame));
}

#[test]
fn username_policy() {
    assert!(username_valid("ana"));
    assert!(username_valid(""));
    assert!(username_valid("vinte-characters-ok_"));
    assert!(!username_valid("a b"));
    assert!(!username_valid("tab\tseparated"));
    assert!(!username_valid("umnomeabsurdamentelongodemais"));
}

#[test]
fn client_connects_and_logs_in() {
    // the connect handshake starts the heartbeat subsystem
    let step = client_step(
        ClientState::Connecting,
        ClientEvent::ServerMsg(ServerMessage::ConnectResponse),
    );
    assert!(matches!(step.next, ClientState::Connected));
    assert!(step.start_heartbeat);
    assert!(!step.shutdown);
    // a login command sends the request and awaits the reply
    let step = client_step(
        step.next,
        ClientEvent::Cmd(Command::Login { user: "ana".to_string(), passwd: "x".to_string() }),
    );
    assert!(matches!(step.next, ClientState::AwaitLogin { .. }));
    assert!(matches!(step.send, Some(MessageEnum::LoginRequest(_))));
    // the accepting reply moves to the idle, logged-in state
    let step = client_step(
        step.next,
        ClientEvent::ServerMsg(ServerMessage::LoginResponse(LoginResponse::Accepted)),
    );
    assert!(matches!(step.next, ClientState::Idle { .. }));
}

#[test]
fn client_login_rejection_returns_to_connected() {
    let step = client_step(
        ClientState::AwaitLogin { user: "ana".to_string() },
        ClientEvent::ServerMsg(ServerMessage::LoginResponse(LoginResponse::Rejected)),
    );
    assert!(matches!(step.next, ClientState::Connected));
}

#[test]
fn client_watch_timeout_reprompts() {
    // a timed-out watch recovers to the state's prompt, never to a
    // logged-in state
    let step = client_step(
        ClientState::AwaitLogin { user: "ana".to_string() },
        ClientEvent::WatchTimedOut,
    );
    assert!(matches!(step.next, ClientState::Connected));
    let step = client_step(
        ClientState::AwaitLeaderboard { user: "ana".to_string() },
        ClientEvent::WatchTimedOut,
    );
    assert!(matches!(step.next, ClientState::Idle { .. }));
}

#[test]
fn client_channel_loss_terminates() {
    let step = client_step(
        ClientState::Idle { user: "ana".to_string() },
        ClientEvent::ChannelClosed,
    );
    assert!(matches!(step.next, ClientState::Terminated));
    // explicit quit also disconnects and sets the shutdown flag
    let step = client_step(
        ClientState::Idle { user: "ana".to_string() },
        ClientEvent::Cmd(Command::Quit),
    );
    assert!(matches!(step.next, ClientState::Terminated));
    assert!(matches!(step.send, Some(MessageEnum::Disconnect)));
    assert!(step.shutdown);
}

#[test]
fn client_hosts_a_game() {
    // the accepted create-game reply opens the hosting turn loop
    let step = client_step(
        ClientState::AwaitCreateGame { user: "ana".to_string() },
        ClientEvent::ServerMsg(ServerMessage::CreateGameResponse(CreateGameResponse::Accepted)),
    );
    assert!(matches!(step.next, ClientState::HostingLocalTurn { .. }));
    // solo: the ghost draw leads straight to the player's turn
    let step = client_step(step.next, ClientEvent::LocalGhostDir('a'));
    assert!(matches!(step.next, ClientState::HostingPlayerTurn { .. }));
    assert!(step.peer_send.is_none());
    // a peer joining is remembered
    let step = client_step(
        step.next,
        ClientEvent::PeerJoined { ghost_user: "bob".to_string() },
    );
    // the player moves; the next ghost draw now exchanges the board
    let step = client_step(step.next, ClientEvent::Cmd(Command::Move { dir: 'a' }));
    assert!(matches!(step.next, ClientState::HostingLocalTurn { .. }));
    let step = client_step(step.next, ClientEvent::LocalGhostDir('a'));
    assert!(matches!(step.next, ClientState::HostingExchange { .. }));
    assert!(step.peer_send.is_some());
    // a peer failure degrades to a solo game rather than ending it
    let step = client_step(step.next, ClientEvent::PeerFailed);
    assert!(matches!(
        step.next,
        ClientState::HostingPlayerTurn { peer: None, .. }
    ));
    assert!(step.drop_peer);
    // ending the game reports the score and returns to idle
    let step = client_step(step.next, ClientEvent::Cmd(Command::EndGame));
    assert!(matches!(step.next, ClientState::Idle { .. }));
    assert!(matches!(step.send, Some(MessageEnum::AddLeaderboardEntry(_))));
}

#[test]
fn client_joins_a_game() {
    let step = client_step(
        ClientState::AwaitJoinGame { user: "bob".to_string(), pacman: "ana".to_string() },
        ClientEvent::ServerMsg(ServerMessage::JoinGameResponse(JoinGameResponse::Accepted(
            addr(7000),
        ))),
    );
    assert!(matches!(step.next, ClientState::JoinedConnecting { .. }));
    assert_eq!(step.connect_peer, Some(addr(7000)));
    let step = client_step(step.next, ClientEvent::PeerConnected);
    assert!(matches!(step.next, ClientState::JoinedAwaitBoard { .. }));
    // the host's board arrives; the joiner moves its ghost and sends the
    // board back
    let board = pacman_net::game::Game::new();
    let step = client_step(step.next, ClientEvent::PeerBoard(board));
    assert!(matches!(step.next, ClientState::JoinedPlayerTurn { .. }));
    let step = client_step(step.next, ClientEvent::Cmd(Command::Move { dir: 'w' }));
    assert!(matches!(step.next, ClientState::JoinedAwaitBoard { .. }));
    assert!(step.peer_send.is_some());
    // a peer failure ends the match and notifies the server
    let step = client_step(step.next, ClientEvent::PeerFailed);
    assert!(matches!(step.next, ClientState::Idle { .. }));
    assert!(matches!(step.send, Some(MessageEnum::QuitGameRequest)));
}

#[test]
fn client_join_rejected_returns_to_idle() {
    let step = client_step(
        ClientState::AwaitJoinGame { user: "bob".to_string(), pacman: "ana".to_string() },
        ClientEvent::ServerMsg(ServerMessage::JoinGameResponse(JoinGameResponse::Rejected)),
    );
    assert!(matches!(step.next, ClientState::Idle { .. }));
    assert!(step.connect_peer.is_none());
}

#[test]
fn client_drops_unrelated_messages_while_waiting() {
    // an unrelated server push while awaiting a login reply is dropped
    let step = client_step(
        ClientState::AwaitLogin { user: "ana".to_string() },
        ClientEvent::ServerMsg(ServerMessage::NotConnected),
    );
    assert!(matches!(step.next, ClientState::AwaitLogin { .. }));
    assert!(step.send.is_none());
}

#[test]
fn random_direction_is_a_movement_key() {
    for _ in 0..64 {
        let d = random_direction();
        assert!(d == 'w' || d == 'a' || d == 's' || d == 'd');
    }
}

#[test]
fn direction_vectors() {
    assert_eq!(Direction::North.as_vector(), [-1, 0]);
    assert_eq!(Direction::West.as_vector(), [0, -1]);
    assert_eq!(Direction::East.as_vector(), [0, 1]);
    assert_eq!(Direction::South.as_vector(), [1, 0]);
}

#[test]
fn clock_is_readable() {
    // the clock yields milliseconds since the epoch: far past zero on
    // any machine with a set clock
    let t = current_time();
    assert!(t > 1_000_000_000_000);
}

#[test]
fn connection_identities_compare_by_value() {
    let a = Connection::Udp(addr(1));
    let b = Connection::Udp(addr(1));
    let c = Connection::Tcp(addr(1));
    assert_eq!(a, b);
    assert_ne!(a, c);
}

#[test]
fn shell_parses_create_game_with_unbound_address() {
    let shell = Shell::new(strings(&["inicia"]));
    // the address is not part of the line: the caller binds a socket and
    // fills it in before forming the event
    match shell.parse(&strings(&["inicia"])) {
        Some(Command::CreateGame { listener_addr }) => {
            assert_eq!(listener_addr, NetAddr { host: HostAddr::V4(0), port: 0 });
        },
        other => panic!("unexpected parse: {:?}", other),
    }
}
