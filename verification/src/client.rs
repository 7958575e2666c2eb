//! The client's connection state machine. Each state owns what it needs
//! (the login name, the running board, the peer's name), transitions
//! consume the state and an event and yield the next state together with
//! the effects the caller must perform: a message to the server, a board
//! for the peer stream, a peer connection to open, the heartbeat
//! subsystem to start, or the shutdown flag to set. Sockets, channels,
//! prompts and clocks stay with the caller; every decision is here.
//!
//! The flow is `Connecting -> Connected <-> Idle -> {Hosting, Joined} ->
//! Idle`, with an explicit awaiting state for each request the client
//! watches a reply for; a watch that times out re-prompts, a closed
//! inbound channel ends the run, and an explicit quit also sets the
//! shutdown flag.

use vstd::prelude::*;
use crate::NetAddr;
use crate::client_server::{
    MessageEnum, MessageEnumV, CreateUserRequest, LoginRequest, ChangePasswordRequest,
    CreateGameRequest, JoinGameRequest, wf_enum,
};
use crate::server_client;
use crate::server_client::{LoginResponse, CreateGameResponse, JoinGameResponse};
use crate::shell::{Command, CommandV};
use crate::game::{
    Game, GameV, Pos, wf_game, initial_board,
    spec_move_pacman, spec_move_local_ghost, spec_move_remote_ghost,
};
use crate::codec::check_str_fits;
use crate::{LeaderboardEntry, LeaderboardEntryV};

verus! {

// ---------------------------------------------------------------------------
// States, events, effects
// ---------------------------------------------------------------------------

/// Where the client stands. `Await*` states are watches: a request went
/// out and the matching reply is being waited for.
pub enum ClientState {
    Connecting,
    Connected,
    AwaitCreateUser,
    AwaitLogin { user: String },
    Idle { user: String },
    AwaitChangePassword { user: String },
    AwaitLeaderboard { user: String },
    AwaitUserList { user: String },
    AwaitLogout { user: String },
    AwaitCreateGame { user: String },
    AwaitJoinGame { user: String, pacman: String },
    JoinedConnecting { user: String, pacman: String },
    HostingLocalTurn { user: String, game: Game, peer: Option<String> },
    HostingExchange { user: String, game: Game, peer: String },
    HostingPlayerTurn { user: String, game: Game, peer: Option<String> },
    JoinedAwaitBoard { user: String, pacman: String },
    JoinedPlayerTurn { user: String, pacman: String, game: Game },
    Terminated,
}

/// The mathematical value of a client state.
pub enum ClientStateV {
    Connecting,
    Connected,
    AwaitCreateUser,
    AwaitLogin { user: Seq<char> },
    Idle { user: Seq<char> },
    AwaitChangePassword { user: Seq<char> },
    AwaitLeaderboard { user: Seq<char> },
    AwaitUserList { user: Seq<char> },
    AwaitLogout { user: Seq<char> },
    AwaitCreateGame { user: Seq<char> },
    AwaitJoinGame { user: Seq<char>, pacman: Seq<char> },
    JoinedConnecting { user: Seq<char>, pacman: Seq<char> },
    HostingLocalTurn { user: Seq<char>, game: GameV, peer: Option<Seq<char>> },
    HostingExchange { user: Seq<char>, game: GameV, peer: Seq<char> },
    HostingPlayerTurn { user: Seq<char>, game: GameV, peer: Option<Seq<char>> },
    JoinedAwaitBoard { user: Seq<char>, pacman: Seq<char> },
    JoinedPlayerTurn { user: Seq<char>, pacman: Seq<char>, game: GameV },
    Terminated,
}

impl View for ClientState {
    type V = ClientStateV;

    open spec fn view(&self) -> ClientStateV {
        match self {
            ClientState::Connecting => ClientStateV::Connecting,
            ClientState::Connected => ClientStateV::Connected,
            ClientState::AwaitCreateUser => ClientStateV::AwaitCreateUser,
            ClientState::AwaitLogin { user } => ClientStateV::AwaitLogin { user: user@ },
            ClientState::Idle { user } => ClientStateV::Idle { user: user@ },
            ClientState::AwaitChangePassword { user } => ClientStateV::AwaitChangePassword {
                user: user@,
            },
            ClientState::AwaitLeaderboard { user } => ClientStateV::AwaitLeaderboard {
                user: user@,
            },
            ClientState::AwaitUserList { user } => ClientStateV::AwaitUserList { user: user@ },
            ClientState::AwaitLogout { user } => ClientStateV::AwaitLogout { user: user@ },
            ClientState::AwaitCreateGame { user } => ClientStateV::AwaitCreateGame {
                user: user@,
            },
            ClientState::AwaitJoinGame { user, pacman } => ClientStateV::AwaitJoinGame {
                user: user@,
                pacman: pacman@,
            },
            ClientState::JoinedConnecting { user, pacman } => ClientStateV::JoinedConnecting {
                user: user@,
                pacman: pacman@,
            },
            ClientState::HostingLocalTurn { user, game, peer } =>
                ClientStateV::HostingLocalTurn {
                    user: user@,
                    game: game@,
                    peer: match peer {
                        Some(p) => Some(p@),
                        None => None,
                    },
                },
            ClientState::HostingExchange { user, game, peer } =>
                ClientStateV::HostingExchange { user: user@, game: game@, peer: peer@ },
            ClientState::HostingPlayerTurn { user, game, peer } =>
                ClientStateV::HostingPlayerTurn {
                    user: user@,
                    game: game@,
                    peer: match peer {
                        Some(p) => Some(p@),
                        None => None,
                    },
                },
            ClientState::JoinedAwaitBoard { user, pacman } => ClientStateV::JoinedAwaitBoard {
                user: user@,
                pacman: pacman@,
            },
            ClientState::JoinedPlayerTurn { user, pacman, game } =>
                ClientStateV::JoinedPlayerTurn {
                    user: user@,
                    pacman: pacman@,
                    game: game@,
                },
            ClientState::Terminated => ClientStateV::Terminated,
        }
    }
}

/// Every board a state holds is a well-formed game.
pub open spec fn wf_client_state(s: ClientStateV) -> bool {
    match s {
        ClientStateV::HostingLocalTurn { game, .. } => wf_game(game),
        ClientStateV::HostingExchange { game, .. } => wf_game(game),
        ClientStateV::HostingPlayerTurn { game, .. } => wf_game(game),
        ClientStateV::JoinedPlayerTurn { game, .. } => wf_game(game),
        _ => true,
    }
}

/// What can happen to the client: a (filtered) server message, a watch
/// deadline, the inbound channel closing, a validated command, and the
/// peer stream's events; the local ghost's random key arrives as an
/// event so the machine is a function of its inputs.
pub enum ClientEvent {
    ServerMsg(server_client::Message),
    WatchTimedOut,
    ChannelClosed,
    Cmd(Command),
    PeerJoined { ghost_user: String },
    PeerConnected,
    PeerBoard(Game),
    PeerFailed,
    LocalGhostDir(char),
}

/// The mathematical value of an event.
pub enum ClientEventV {
    ServerMsg(server_client::MessageV),
    WatchTimedOut,
    ChannelClosed,
    Cmd(CommandV),
    PeerJoined { ghost_user: Seq<char> },
    PeerConnected,
    PeerBoard(GameV),
    PeerFailed,
    LocalGhostDir(char),
}

impl View for ClientEvent {
    type V = ClientEventV;

    open spec fn view(&self) -> ClientEventV {
        match self {
            ClientEvent::ServerMsg(m) => ClientEventV::ServerMsg(m@),
            ClientEvent::WatchTimedOut => ClientEventV::WatchTimedOut,
            ClientEvent::ChannelClosed => ClientEventV::ChannelClosed,
            ClientEvent::Cmd(c) => ClientEventV::Cmd(c@),
            ClientEvent::PeerJoined { ghost_user } => ClientEventV::PeerJoined {
                ghost_user: ghost_user@,
            },
            ClientEvent::PeerConnected => ClientEventV::PeerConnected,
            ClientEvent::PeerBoard(g) => ClientEventV::PeerBoard(g@),
            ClientEvent::PeerFailed => ClientEventV::PeerFailed,
            ClientEvent::LocalGhostDir(d) => ClientEventV::LocalGhostDir(*d),
        }
    }
}

/// A board carried by an event is well formed.
pub open spec fn wf_client_event(e: ClientEventV) -> bool {
    match e {
        ClientEventV::PeerBoard(g) => wf_game(g),
        _ => true,
    }
}

/// The next state and the effects the caller must perform, in this order:
/// send to the server, write the board to the peer, open the peer
/// connection, start the heartbeat subsystem, set the shutdown flag,
/// drop the peer stream.
pub struct Step {
    pub next: ClientState,
    pub send: Option<MessageEnum>,
    pub peer_send: Option<Game>,
    pub connect_peer: Option<NetAddr>,
    pub start_heartbeat: bool,
    pub shutdown: bool,
    pub drop_peer: bool,
}

/// The mathematical value of a step.
#[verifier::ext_equal]
pub struct StepV {
    pub next: ClientStateV,
    pub send: Option<MessageEnumV>,
    pub peer_send: Option<GameV>,
    pub connect_peer: Option<NetAddr>,
    pub start_heartbeat: bool,
    pub shutdown: bool,
    pub drop_peer: bool,
}

impl View for Step {
    type V = StepV;

    open spec fn view(&self) -> StepV {
        StepV {
            next: self.next@,
            send: match self.send {
                Some(ref m) => Some(m@),
                None => None,
            },
            peer_send: match self.peer_send {
                Some(ref g) => Some(g@),
                None => None,
            },
            connect_peer: self.connect_peer,
            start_heartbeat: self.start_heartbeat,
            shutdown: self.shutdown,
            drop_peer: self.drop_peer,
        }
    }
}

// ---------------------------------------------------------------------------
// The transition function, as a specification
// ---------------------------------------------------------------------------

/// A step with no effects.
pub open spec fn stay(s: ClientStateV) -> StepV {
    StepV {
        next: s,
        send: None,
        peer_send: None,
        connect_peer: None,
        start_heartbeat: false,
        shutdown: false,
        drop_peer: false,
    }
}

/// The fresh board a newly created game starts from.
pub open spec fn initial_game() -> GameV {
    GameV {
        board: initial_board(),
        pacman: Pos { row: 2, col: 13 },
        score: 0,
        local_ghost: Pos { row: 3, col: 24 },
        remote_ghost: None,
        ended: false,
    }
}

/// A present remote ghost stays; an absent one enters at its starting
/// cell, with the terminal check run.
pub open spec fn spec_add_remote_ghost(g: GameV) -> GameV {
    match g.remote_ghost {
        Some(_) => g,
        None => GameV {
            remote_ghost: Some(Pos { row: 3, col: 3 }),
            ended: g.ended || g.pacman == (Pos { row: 3, col: 3 }),
            ..g
        },
    }
}

/// The host's game ends: report the score for the leaderboard, drop the
/// peer, send it the final board if it is still there, and return to
/// idle.
pub open spec fn host_finish(
    user: Seq<char>,
    g: GameV,
    to_peer: Option<GameV>,
) -> StepV {
    StepV {
        next: ClientStateV::Idle { user },
        send: Some(MessageEnumV::AddLeaderboardEntry(LeaderboardEntryV {
            score: g.score,
            user,
        })),
        peer_send: to_peer,
        connect_peer: None,
        start_heartbeat: false,
        shutdown: false,
        drop_peer: true,
    }
}

/// The joiner leaves its game: tell the server and return to idle.
pub open spec fn joined_finish(user: Seq<char>, to_peer: Option<GameV>) -> StepV {
    StepV {
        next: ClientStateV::Idle { user },
        send: Some(MessageEnumV::QuitGameRequest),
        peer_send: to_peer,
        connect_peer: None,
        start_heartbeat: false,
        shutdown: false,
        drop_peer: true,
    }
}

/// The full transition relation of the client.
pub open spec fn spec_client_step(s: ClientStateV, e: ClientEventV) -> StepV {
    match s {
        ClientStateV::Connecting => match e {
            ClientEventV::ServerMsg(m) => {
                if m is ConnectResponse {
                    StepV { start_heartbeat: true, ..stay(ClientStateV::Connected) }
                } else {
                    stay(s)
                }
            },
            ClientEventV::WatchTimedOut => stay(ClientStateV::Terminated),
            ClientEventV::ChannelClosed => stay(ClientStateV::Terminated),
            _ => stay(s),
        },
        ClientStateV::Connected => match e {
            ClientEventV::Cmd(CommandV::CreateUser { user, passwd }) => StepV {
                send: Some(MessageEnumV::CreateUserRequest { user, passwd }),
                ..stay(ClientStateV::AwaitCreateUser)
            },
            ClientEventV::Cmd(CommandV::Login { user, passwd }) => StepV {
                send: Some(MessageEnumV::LoginRequest { user, passwd }),
                ..stay(ClientStateV::AwaitLogin { user })
            },
            ClientEventV::Cmd(CommandV::Quit) => StepV {
                send: Some(MessageEnumV::Disconnect),
                shutdown: true,
                ..stay(ClientStateV::Terminated)
            },
            ClientEventV::ChannelClosed => stay(ClientStateV::Terminated),
            _ => stay(s),
        },
        ClientStateV::AwaitCreateUser => match e {
            ClientEventV::ServerMsg(m) => {
                if m is CreateUserResponse {
                    stay(ClientStateV::Connected)
                } else {
                    stay(s)
                }
            },
            ClientEventV::WatchTimedOut => stay(ClientStateV::Connected),
            ClientEventV::ChannelClosed => stay(ClientStateV::Terminated),
            _ => stay(s),
        },
        ClientStateV::AwaitLogin { user } => match e {
            ClientEventV::ServerMsg(m) => match m {
                server_client::MessageV::LoginResponse(resp) => {
                    if resp == LoginResponse::Accepted {
                        stay(ClientStateV::Idle { user })
                    } else {
                        stay(ClientStateV::Connected)
                    }
                },
                _ => stay(s),
            },
            ClientEventV::WatchTimedOut => stay(ClientStateV::Connected),
            ClientEventV::ChannelClosed => stay(ClientStateV::Terminated),
            _ => stay(s),
        },
        ClientStateV::Idle { user } => match e {
            ClientEventV::Cmd(CommandV::ChangePassword { old_passwd, new_passwd }) => StepV {
                send: Some(MessageEnumV::ChangePasswordRequest { old_passwd, new_passwd }),
                ..stay(ClientStateV::AwaitChangePassword { user })
            },
            ClientEventV::Cmd(CommandV::Leaderboard) => StepV {
                send: Some(MessageEnumV::LeaderboardRequest),
                ..stay(ClientStateV::AwaitLeaderboard { user })
            },
            ClientEventV::Cmd(CommandV::ListUsers) => StepV {
                send: Some(MessageEnumV::ConnectedUsersRequest),
                ..stay(ClientStateV::AwaitUserList { user })
            },
            ClientEventV::Cmd(CommandV::JoinGame { pacman }) => StepV {
                send: Some(MessageEnumV::JoinGameRequest { pacman }),
                ..stay(ClientStateV::AwaitJoinGame { user, pacman })
            },
            ClientEventV::Cmd(CommandV::CreateGame { listener_addr }) => StepV {
                send: Some(MessageEnumV::CreateGameRequest { listener_addr }),
                ..stay(ClientStateV::AwaitCreateGame { user })
            },
            ClientEventV::Cmd(CommandV::Logout) => StepV {
                send: Some(MessageEnumV::LogoutRequest),
                ..stay(ClientStateV::AwaitLogout { user })
            },
            ClientEventV::Cmd(CommandV::Quit) => StepV {
                send: Some(MessageEnumV::Disconnect),
                shutdown: true,
                ..stay(ClientStateV::Terminated)
            },
            ClientEventV::ChannelClosed => stay(ClientStateV::Terminated),
            _ => stay(s),
        },
        ClientStateV::AwaitChangePassword { user } => match e {
            ClientEventV::ServerMsg(m) => {
                if m is ChangePasswordResponse {
                    stay(ClientStateV::Idle { user })
                } else {
                    stay(s)
                }
            },
            ClientEventV::WatchTimedOut => stay(ClientStateV::Idle { user }),
            ClientEventV::ChannelClosed => stay(ClientStateV::Terminated),
            _ => stay(s),
        },
        ClientStateV::AwaitLeaderboard { user } => match e {
            ClientEventV::ServerMsg(m) => {
                if m is LeaderboardResponse {
                    stay(ClientStateV::Idle { user })
                } else {
                    stay(s)
                }
            },
            ClientEventV::WatchTimedOut => stay(ClientStateV::Idle { user }),
            ClientEventV::ChannelClosed => stay(ClientStateV::Terminated),
            _ => stay(s),
        },
        ClientStateV::AwaitUserList { user } => match e {
            ClientEventV::ServerMsg(m) => {
                if m is ConnectedUsersResponse {
                    stay(ClientStateV::Idle { user })
                } else {
                    stay(s)
                }
            },
            ClientEventV::WatchTimedOut => stay(ClientStateV::Idle { user }),
            ClientEventV::ChannelClosed => stay(ClientStateV::Terminated),
            _ => stay(s),
        },
        ClientStateV::AwaitLogout { user } => match e {
            ClientEventV::ServerMsg(m) => {
                if m is LogoutResponse {
                    stay(ClientStateV::Connected)
                } else {
                    stay(s)
                }
            },
            ClientEventV::WatchTimedOut => stay(ClientStateV::Idle { user }),
            ClientEventV::ChannelClosed => stay(ClientStateV::Terminated),
            _ => stay(s),
        },
        ClientStateV::AwaitCreateGame { user } => match e {
            ClientEventV::ServerMsg(m) => match m {
                server_client::MessageV::CreateGameResponse(resp) => {
                    if resp == CreateGameResponse::Accepted {
                        stay(ClientStateV::HostingLocalTurn {
                            user,
                            game: initial_game(),
                            peer: None,
                        })
                    } else {
                        stay(ClientStateV::Idle { user })
                    }
                },
                _ => stay(s),
            },
            ClientEventV::WatchTimedOut => stay(ClientStateV::Idle { user }),
            ClientEventV::ChannelClosed => stay(ClientStateV::Terminated),
            _ => stay(s),
        },
        ClientStateV::AwaitJoinGame { user, pacman } => match e {
            ClientEventV::ServerMsg(m) => match m {
                server_client::MessageV::JoinGameResponse(resp) => match resp {
                    JoinGameResponse::Accepted(addr) => StepV {
                        connect_peer: Some(addr),
                        ..stay(ClientStateV::JoinedConnecting { user, pacman })
                    },
                    JoinGameResponse::Rejected => stay(ClientStateV::Idle { user }),
                },
                _ => stay(s),
            },
            ClientEventV::WatchTimedOut => stay(ClientStateV::Idle { user }),
            ClientEventV::ChannelClosed => stay(ClientStateV::Terminated),
            _ => stay(s),
        },
        ClientStateV::JoinedConnecting { user, pacman } => match e {
            ClientEventV::PeerConnected => stay(ClientStateV::JoinedAwaitBoard {
                user,
                pacman,
            }),
            ClientEventV::PeerFailed => joined_finish(user, None),
            ClientEventV::ChannelClosed => stay(ClientStateV::Terminated),
            _ => stay(s),
        },
        ClientStateV::HostingLocalTurn { user, game, peer } => match e {
            ClientEventV::LocalGhostDir(d) => {
                let g1 = spec_move_local_ghost(game, d);
                if g1.ended {
                    host_finish(
                        user,
                        g1,
                        if peer is Some { Some(g1) } else { None },
                    )
                } else {
                    match peer {
                        Some(p) => {
                            let g2 = spec_add_remote_ghost(g1);
                            StepV {
                                peer_send: Some(g2),
                                ..stay(ClientStateV::HostingExchange {
                                    user,
                                    game: g2,
                                    peer: p,
                                })
                            }
                        },
                        None => stay(ClientStateV::HostingPlayerTurn {
                            user,
                            game: g1,
                            peer: None,
                        }),
                    }
                }
            },
            ClientEventV::PeerJoined { ghost_user } => {
                if peer is None {
                    stay(ClientStateV::HostingLocalTurn {
                        user,
                        game,
                        peer: Some(ghost_user),
                    })
                } else {
                    stay(s)
                }
            },
            ClientEventV::ChannelClosed => stay(ClientStateV::Terminated),
            _ => stay(s),
        },
        ClientStateV::HostingExchange { user, game, peer } => match e {
            ClientEventV::PeerBoard(g) => {
                if g.ended {
                    host_finish(user, g, None)
                } else {
                    stay(ClientStateV::HostingPlayerTurn {
                        user,
                        game: g,
                        peer: Some(peer),
                    })
                }
            },
            ClientEventV::PeerFailed => StepV {
                drop_peer: true,
                ..stay(ClientStateV::HostingPlayerTurn { user, game, peer: None })
            },
            ClientEventV::ChannelClosed => stay(ClientStateV::Terminated),
            _ => stay(s),
        },
        ClientStateV::HostingPlayerTurn { user, game, peer } => match e {
            ClientEventV::Cmd(CommandV::Move { dir }) => {
                let g1 = spec_move_pacman(game, dir);
                if g1.ended {
                    host_finish(
                        user,
                        g1,
                        if peer is Some { Some(g1) } else { None },
                    )
                } else {
                    stay(ClientStateV::HostingLocalTurn { user, game: g1, peer })
                }
            },
            ClientEventV::Cmd(CommandV::EndGame) => host_finish(user, game, None),
            ClientEventV::Cmd(CommandV::Latency) => stay(s),
            ClientEventV::PeerJoined { ghost_user } => {
                if peer is None {
                    stay(ClientStateV::HostingPlayerTurn {
                        user,
                        game,
                        peer: Some(ghost_user),
                    })
                } else {
                    stay(s)
                }
            },
            ClientEventV::ChannelClosed => stay(ClientStateV::Terminated),
            _ => stay(s),
        },
        ClientStateV::JoinedAwaitBoard { user, pacman } => match e {
            ClientEventV::PeerBoard(g) => {
                if g.ended {
                    joined_finish(user, None)
                } else {
                    stay(ClientStateV::JoinedPlayerTurn { user, pacman, game: g })
                }
            },
            ClientEventV::PeerFailed => joined_finish(user, None),
            ClientEventV::ChannelClosed => stay(ClientStateV::Terminated),
            _ => stay(s),
        },
        ClientStateV::JoinedPlayerTurn { user, pacman, game } => match e {
            ClientEventV::Cmd(CommandV::Move { dir }) => {
                let g1 = spec_move_remote_ghost(game, dir);
                if g1.ended {
                    joined_finish(user, Some(g1))
                } else {
                    StepV {
                        peer_send: Some(g1),
                        ..stay(ClientStateV::JoinedAwaitBoard { user, pacman })
                    }
                }
            },
            ClientEventV::Cmd(CommandV::EndGame) => joined_finish(user, None),
            ClientEventV::Cmd(CommandV::Latency) => stay(s),
            ClientEventV::PeerFailed => joined_finish(user, None),
            ClientEventV::ChannelClosed => stay(ClientStateV::Terminated),
            _ => stay(s),
        },
        ClientStateV::Terminated => stay(s),
    }
}



// ---------------------------------------------------------------------------
// The local ghost's random key
// ---------------------------------------------------------------------------

/// Relies on `rand::Rng::gen_range` over `0..4`: yields a value below
/// four. Nothing more can be promised of a random draw.
#[verifier::external_body]
fn random_index4() -> (r: usize)
    ensures
        r < 4,
{
    rand::Rng::gen_range(&mut rand::thread_rng(), 0..4usize)
}

/// Draws the locally simulated ghost's movement key for one turn: always
/// one of the four movement keys.
pub fn random_direction() -> (c: char)
    ensures
        c == 'w' || c == 'a' || c == 's' || c == 'd',
{
    match random_index4() {
        0 => 'w',
        1 => 'a',
        2 => 's',
        _ => 'd',
    }
}

// ---------------------------------------------------------------------------
// The executable transition
// ---------------------------------------------------------------------------

/// A step with no effects.
fn mk_stay(next: ClientState) -> (r: Step)
    ensures
        r@ == stay(next@),
{
    Step {
        next,
        send: None,
        peer_send: None,
        connect_peer: None,
        start_heartbeat: false,
        shutdown: false,
        drop_peer: false,
    }
}

/// The host's end-of-game step.
fn mk_host_finish(user: String, score: u64, to_peer: Option<Game>) -> (r: Step)
    ensures
        r@ == (StepV {
            next: ClientStateV::Idle { user: user@ },
            send: Some(MessageEnumV::AddLeaderboardEntry(LeaderboardEntryV {
                score,
                user: user@,
            })),
            peer_send: (match to_peer {
                Some(g) => Some(g@),
                None => None,
            }),
            connect_peer: None,
            start_heartbeat: false,
            shutdown: false,
            drop_peer: true,
        }),
        wf_enum(MessageEnumV::AddLeaderboardEntry(LeaderboardEntryV {
            score,
            user: user@,
        })),
{
    check_str_fits(user.as_str());
    Step {
        next: ClientState::Idle { user: user.clone() },
        send: Some(MessageEnum::AddLeaderboardEntry(LeaderboardEntry { score, user })),
        peer_send: to_peer,
        connect_peer: None,
        start_heartbeat: false,
        shutdown: false,
        drop_peer: true,
    }
}

/// The joiner's end-of-game step.
fn mk_joined_finish(user: String, to_peer: Option<Game>) -> (r: Step)
    ensures
        r@ == joined_finish(
            user@,
            match to_peer {
                Some(g) => Some(g@),
                None => None,
            },
        ),
{
    Step {
        next: ClientState::Idle { user },
        send: Some(MessageEnum::QuitGameRequest),
        peer_send: to_peer,
        connect_peer: None,
        start_heartbeat: false,
        shutdown: false,
        drop_peer: true,
    }
}

/// One transition of the client: consumes the state and the event, hands
/// back the next state and the effects to perform. Total: an event a
/// state has no use for leaves it unchanged.
#[verifier::rlimit(100)]
#[verifier::spinoff_prover]
pub fn client_step(state: ClientState, event: ClientEvent) -> (r: Step)
    requires
        wf_client_state(state@),
        wf_client_event(event@),
    ensures
        r@ == spec_client_step(state@, event@),
        wf_client_state(r@.next),
        r@.send matches Some(m) ==> wf_enum(m),
        r@.peer_send matches Some(g) ==> wf_game(g),
{
    match state {
        ClientState::Connecting => match event {
            ClientEvent::ServerMsg(m) => match m {
                server_client::Message::ConnectResponse => Step {
                    start_heartbeat: true,
                    ..mk_stay(ClientState::Connected)
                },
                _ => mk_stay(ClientState::Connecting),
            },
            ClientEvent::WatchTimedOut => mk_stay(ClientState::Terminated),
            ClientEvent::ChannelClosed => mk_stay(ClientState::Terminated),
            _ => mk_stay(ClientState::Connecting),
        },
        ClientState::Connected => match event {
            ClientEvent::Cmd(Command::CreateUser { user, passwd }) => {
                check_str_fits(user.as_str());
                check_str_fits(passwd.as_str());
                Step {
                    send: Some(MessageEnum::CreateUserRequest(CreateUserRequest {
                        user,
                        passwd,
                    })),
                    ..mk_stay(ClientState::AwaitCreateUser)
                }
            },
            ClientEvent::Cmd(Command::Login { user, passwd }) => {
                check_str_fits(user.as_str());
                check_str_fits(passwd.as_str());
                Step {
                    send: Some(MessageEnum::LoginRequest(LoginRequest {
                        user: user.clone(),
                        passwd,
                    })),
                    ..mk_stay(ClientState::AwaitLogin { user })
                }
            },
            ClientEvent::Cmd(Command::Quit) => Step {
                send: Some(MessageEnum::Disconnect),
                shutdown: true,
                ..mk_stay(ClientState::Terminated)
            },
            ClientEvent::ChannelClosed => mk_stay(ClientState::Terminated),
            _ => mk_stay(ClientState::Connected),
        },
        ClientState::AwaitCreateUser => match event {
            ClientEvent::ServerMsg(m) => match m {
                server_client::Message::CreateUserResponse(_) =>
                    mk_stay(ClientState::Connected),
                _ => mk_stay(ClientState::AwaitCreateUser),
            },
            ClientEvent::WatchTimedOut => mk_stay(ClientState::Connected),
            ClientEvent::ChannelClosed => mk_stay(ClientState::Terminated),
            _ => mk_stay(ClientState::AwaitCreateUser),
        },
        ClientState::AwaitLogin { user } => match event {
            ClientEvent::ServerMsg(m) => match m {
                server_client::Message::LoginResponse(resp) => match resp {
                    LoginResponse::Accepted => mk_stay(ClientState::Idle { user }),
                    LoginResponse::Rejected => mk_stay(ClientState::Connected),
                },
                _ => mk_stay(ClientState::AwaitLogin { user }),
            },
            ClientEvent::WatchTimedOut => mk_stay(ClientState::Connected),
            ClientEvent::ChannelClosed => mk_stay(ClientState::Terminated),
            _ => mk_stay(ClientState::AwaitLogin { user }),
        },
        ClientState::Idle { user } => match event {
            ClientEvent::Cmd(Command::ChangePassword { old_passwd, new_passwd }) => {
                check_str_fits(old_passwd.as_str());
                check_str_fits(new_passwd.as_str());
                Step {
                    send: Some(MessageEnum::ChangePasswordRequest(ChangePasswordRequest {
                        old_passwd,
                        new_passwd,
                    })),
                    ..mk_stay(ClientState::AwaitChangePassword { user })
                }
            },
            ClientEvent::Cmd(Command::Leaderboard) => Step {
                send: Some(MessageEnum::LeaderboardRequest),
                ..mk_stay(ClientState::AwaitLeaderboard { user })
            },
            ClientEvent::Cmd(Command::ListUsers) => Step {
                send: Some(MessageEnum::ConnectedUsersRequest),
                ..mk_stay(ClientState::AwaitUserList { user })
            },
            ClientEvent::Cmd(Command::JoinGame { pacman }) => {
                check_str_fits(pacman.as_str());
                Step {
                    send: Some(MessageEnum::JoinGameRequest(JoinGameRequest {
                        pacman: pacman.clone(),
                    })),
                    ..mk_stay(ClientState::AwaitJoinGame { user, pacman })
                }
            },
            ClientEvent::Cmd(Command::CreateGame { listener_addr }) => Step {
                send: Some(MessageEnum::CreateGameRequest(CreateGameRequest {
                    listener_addr,
                })),
                ..mk_stay(ClientState::AwaitCreateGame { user })
            },
            ClientEvent::Cmd(Command::Logout) => Step {
                send: Some(MessageEnum::LogoutRequest),
                ..mk_stay(ClientState::AwaitLogout { user })
            },
            ClientEvent::Cmd(Command::Quit) => Step {
                send: Some(MessageEnum::Disconnect),
                shutdown: true,
                ..mk_stay(ClientState::Terminated)
            },
            ClientEvent::ChannelClosed => mk_stay(ClientState::Terminated),
            _ => mk_stay(ClientState::Idle { user }),
        },
        ClientState::AwaitChangePassword { user } => match event {
            ClientEvent::ServerMsg(m) => match m {
                server_client::Message::ChangePasswordResponse(_) =>
                    mk_stay(ClientState::Idle { user }),
                _ => mk_stay(ClientState::AwaitChangePassword { user }),
            },
            ClientEvent::WatchTimedOut => mk_stay(ClientState::Idle { user }),
            ClientEvent::ChannelClosed => mk_stay(ClientState::Terminated),
            _ => mk_stay(ClientState::AwaitChangePassword { user }),
        },
        ClientState::AwaitLeaderboard { user } => match event {
            ClientEvent::ServerMsg(m) => match m {
                server_client::Message::LeaderboardResponse(_) =>
                    mk_stay(ClientState::Idle { user }),
                _ => mk_stay(ClientState::AwaitLeaderboard { user }),
            },
            ClientEvent::WatchTimedOut => mk_stay(ClientState::Idle { user }),
            ClientEvent::ChannelClosed => mk_stay(ClientState::Terminated),
            _ => mk_stay(ClientState::AwaitLeaderboard { user }),
        },
        ClientState::AwaitUserList { user } => match event {
            ClientEvent::ServerMsg(m) => match m {
                server_client::Message::ConnectedUsersResponse(_) =>
                    mk_stay(ClientState::Idle { user }),
                _ => mk_stay(ClientState::AwaitUserList { user }),
            },
            ClientEvent::WatchTimedOut => mk_stay(ClientState::Idle { user }),
            ClientEvent::ChannelClosed => mk_stay(ClientState::Terminated),
            _ => mk_stay(ClientState::AwaitUserList { user }),
        },
        ClientState::AwaitLogout { user } => match event {
            ClientEvent::ServerMsg(m) => match m {
                server_client::Message::LogoutResponse => mk_stay(ClientState::Connected),
                _ => mk_stay(ClientState::AwaitLogout { user }),
            },
            ClientEvent::WatchTimedOut => mk_stay(ClientState::Idle { user }),
            ClientEvent::ChannelClosed => mk_stay(ClientState::Terminated),
            _ => mk_stay(ClientState::AwaitLogout { user }),
        },
        ClientState::AwaitCreateGame { user } => match event {
            ClientEvent::ServerMsg(m) => match m {
                server_client::Message::CreateGameResponse(resp) => match resp {
                    CreateGameResponse::Accepted => {
                        let game = Game::new();
                        proof {
                            assert(game@ =~= initial_game());
                        }
                        mk_stay(ClientState::HostingLocalTurn { user, game, peer: None })
                    },
                    CreateGameResponse::Rejected => mk_stay(ClientState::Idle { user }),
                },
                _ => mk_stay(ClientState::AwaitCreateGame { user }),
            },
            ClientEvent::WatchTimedOut => mk_stay(ClientState::Idle { user }),
            ClientEvent::ChannelClosed => mk_stay(ClientState::Terminated),
            _ => mk_stay(ClientState::AwaitCreateGame { user }),
        },
        ClientState::AwaitJoinGame { user, pacman } => match event {
            ClientEvent::ServerMsg(m) => match m {
                server_client::Message::JoinGameResponse(resp) => match resp {
                    JoinGameResponse::Accepted(addr) => Step {
                        connect_peer: Some(addr),
                        ..mk_stay(ClientState::JoinedConnecting { user, pacman })
                    },
                    JoinGameResponse::Rejected => mk_stay(ClientState::Idle { user }),
                },
                _ => mk_stay(ClientState::AwaitJoinGame { user, pacman }),
            },
            ClientEvent::WatchTimedOut => mk_stay(ClientState::Idle { user }),
            ClientEvent::ChannelClosed => mk_stay(ClientState::Terminated),
            _ => mk_stay(ClientState::AwaitJoinGame { user, pacman }),
        },
        ClientState::JoinedConnecting { user, pacman } => match event {
            ClientEvent::PeerConnected => mk_stay(ClientState::JoinedAwaitBoard {
                user,
                pacman,
            }),
            ClientEvent::PeerFailed => mk_joined_finish(user, None),
            ClientEvent::ChannelClosed => mk_stay(ClientState::Terminated),
            _ => mk_stay(ClientState::JoinedConnecting { user, pacman }),
        },
        ClientState::HostingLocalTurn { user, game, peer } => match event {
            ClientEvent::LocalGhostDir(d) => {
                let mut g1 = game;
                g1.move_local_ghost(d);
                if g1.game_over() {
                    let score = g1.score();
                    let to_peer = if peer.is_some() { Some(g1) } else { None };
                    mk_host_finish(user, score, to_peer)
                } else {
                    match peer {
                        Some(p) => {
                            g1.add_remote_ghost();
                            proof {
                                assert(g1@ == spec_add_remote_ghost(
                                    spec_move_local_ghost(game@, d),
                                ));
                            }
                            Step {
                                peer_send: Some(g1.duplicate()),
                                ..mk_stay(ClientState::HostingExchange {
                                    user,
                                    game: g1,
                                    peer: p,
                                })
                            }
                        },
                        None => mk_stay(ClientState::HostingPlayerTurn {
                            user,
                            game: g1,
                            peer: None,
                        }),
                    }
                }
            },
            ClientEvent::PeerJoined { ghost_user } => {
                if peer.is_none() {
                    mk_stay(ClientState::HostingLocalTurn {
                        user,
                        game,
                        peer: Some(ghost_user),
                    })
                } else {
                    mk_stay(ClientState::HostingLocalTurn { user, game, peer })
                }
            },
            ClientEvent::ChannelClosed => mk_stay(ClientState::Terminated),
            _ => mk_stay(ClientState::HostingLocalTurn { user, game, peer }),
        },
        ClientState::HostingExchange { user, game, peer } => match event {
            ClientEvent::PeerBoard(g) => {
                if g.game_over() {
                    let score = g.score();
                    mk_host_finish(user, score, None)
                } else {
                    mk_stay(ClientState::HostingPlayerTurn {
                        user,
                        game: g,
                        peer: Some(peer),
                    })
                }
            },
            ClientEvent::PeerFailed => Step {
                drop_peer: true,
                ..mk_stay(ClientState::HostingPlayerTurn { user, game, peer: None })
            },
            ClientEvent::ChannelClosed => mk_stay(ClientState::Terminated),
            _ => mk_stay(ClientState::HostingExchange { user, game, peer }),
        },
        ClientState::HostingPlayerTurn { user, game, peer } => match event {
            ClientEvent::Cmd(Command::Move { dir }) => {
                let mut g1 = game;
                g1.move_pacman(dir);
                if g1.game_over() {
                    let score = g1.score();
                    let to_peer = if peer.is_some() { Some(g1) } else { None };
                    mk_host_finish(user, score, to_peer)
                } else {
                    mk_stay(ClientState::HostingLocalTurn { user, game: g1, peer })
                }
            },
            ClientEvent::Cmd(Command::EndGame) => {
                let score = game.score();
                mk_host_finish(user, score, None)
            },
            ClientEvent::Cmd(Command::Latency) => mk_stay(ClientState::HostingPlayerTurn {
                user,
                game,
                peer,
            }),
            ClientEvent::PeerJoined { ghost_user } => {
                if peer.is_none() {
                    mk_stay(ClientState::HostingPlayerTurn {
                        user,
                        game,
                        peer: Some(ghost_user),
                    })
                } else {
                    mk_stay(ClientState::HostingPlayerTurn { user, game, peer })
                }
            },
            ClientEvent::ChannelClosed => mk_stay(ClientState::Terminated),
            _ => mk_stay(ClientState::HostingPlayerTurn { user, game, peer }),
        },
        ClientState::JoinedAwaitBoard { user, pacman } => match event {
            ClientEvent::PeerBoard(g) => {
                if g.game_over() {
                    mk_joined_finish(user, None)
                } else {
                    mk_stay(ClientState::JoinedPlayerTurn { user, pacman, game: g })
                }
            },
            ClientEvent::PeerFailed => mk_joined_finish(user, None),
            ClientEvent::ChannelClosed => mk_stay(ClientState::Terminated),
            _ => mk_stay(ClientState::JoinedAwaitBoard { user, pacman }),
        },
        ClientState::JoinedPlayerTurn { user, pacman, game } => match event {
            ClientEvent::Cmd(Command::Move { dir }) => {
                let mut g1 = game;
                g1.move_remote_ghost(dir);
                if g1.game_over() {
                    mk_joined_finish(user, Some(g1))
                } else {
                    Step {
                        peer_send: Some(g1),
                        ..mk_stay(ClientState::JoinedAwaitBoard { user, pacman })
                    }
                }
            },
            ClientEvent::Cmd(Command::EndGame) => mk_joined_finish(user, None),
            ClientEvent::Cmd(Command::Latency) => mk_stay(ClientState::JoinedPlayerTurn {
                user,
                pacman,
                game,
            }),
            ClientEvent::PeerFailed => mk_joined_finish(user, None),
            ClientEvent::ChannelClosed => mk_stay(ClientState::Terminated),
            _ => mk_stay(ClientState::JoinedPlayerTurn { user, pacman, game }),
        },
        ClientState::Terminated => mk_stay(ClientState::Terminated),
    }
}

} // verus!
