//! A verified network stack for a two-player Pacman game: the wire codec,
//! the server's session table with its username and pairing indices, the
//! heartbeat liveness rules, the server request router, and the client's
//! connection state machine.

use vstd::prelude::*;

pub mod alist;
pub mod codec;
pub mod client_server;
pub mod server_client;
pub mod game;
pub mod table;
pub mod router;
pub mod event;
pub mod heartbeat;
pub mod shell;
pub mod client;

verus! {

/// Milliseconds between two heartbeat messages.
pub const HEARTBEAT_INTERVAL_MS: u64 = 1000;

/// Milliseconds of heartbeat silence after which a peer is considered gone.
pub const HEARTBEAT_TIMEOUT_MS: u64 = 20000;

/// A socket address modelled as plain values: an IPv4 or IPv6 host and a port.
#[derive(Clone, Copy, Debug, PartialEq, Eq, Structural)]
pub enum HostAddr {
    V4(u32),
    V6(u128),
}

/// An endpoint address: host plus port.
#[derive(Clone, Copy, Debug, PartialEq, Eq, Structural)]
pub struct NetAddr {
    pub host: HostAddr,
    pub port: u16,
}

/// Identifies a remote endpoint by transport kind plus socket address.
/// This is the key for all session state and the reply address.
#[derive(Clone, Copy, Debug, PartialEq, Eq, Structural)]
pub enum Connection {
    Udp(NetAddr),
    Tcp(NetAddr),
}

/// Relies on `std::time::SystemTime::now` and
/// `SystemTime::duration_since(UNIX_EPOCH)`: yields the wall clock as
/// milliseconds since the epoch. Nothing can be promised of a clock reading.
#[verifier::external_body]
pub fn current_time() -> u64 {
    std::time::SystemTime::now()
        .duration_since(std::time::UNIX_EPOCH)
        .map_or(0, |d| d.as_millis() as u64)
}

/// A direction of movement on the board.
#[derive(Clone, Copy, Debug, PartialEq, Eq, Structural)]
pub enum Direction {
    North,
    West,
    East,
    South,
}

impl Direction {
    /// The (row, column) delta of one step in this direction.
    pub fn as_vector(&self) -> (r: [i8; 2])
        ensures
            *self == Direction::North ==> r@ == seq![-1i8, 0i8],
            *self == Direction::West ==> r@ == seq![0i8, -1i8],
            *self == Direction::East ==> r@ == seq![0i8, 1i8],
            *self == Direction::South ==> r@ == seq![1i8, 0i8],
    {
        match self {
            Direction::North => [-1, 0],
            Direction::West => [0, -1],
            Direction::East => [0, 1],
            Direction::South => [1, 0],
        }
    }
}

/// One leaderboard row: a score and the user that reached it.
#[derive(Clone, Debug, PartialEq, Eq)]
pub struct LeaderboardEntry {
    pub score: u64,
    pub user: String,
}

/// The mathematical value of a leaderboard row.
pub struct LeaderboardEntryV {
    pub score: u64,
    pub user: Seq<char>,
}

impl View for LeaderboardEntry {
    type V = LeaderboardEntryV;

    open spec fn view(&self) -> LeaderboardEntryV {
        LeaderboardEntryV { score: self.score, user: self.user@ }
    }
}

/// A protocol message that can cross the wire: one encoded message per UDP
/// datagram or per short-lived TCP connection. Encoding is injective: the
/// per-implementation round-trip lemma proves that decoding an encoded
/// message yields the message back.
pub trait PacmanMessage: Sized + View {
    /// Machine-limit side conditions: every string the message holds fits
    /// the wire's 64-bit length prefix. Holds of every message a program
    /// can build.
    spec fn wf(&self) -> bool;

    /// The byte image of a message value.
    spec fn spec_to_bytes(v: Self::V) -> Seq<u8>;

    /// The message value a byte sequence decodes to, if any.
    spec fn spec_from_bytes(b: Seq<u8>) -> Option<Self::V>;

    fn to_bytes(&self) -> (r: Vec<u8>)
        requires
            self.wf(),
        ensures
            r@ == Self::spec_to_bytes(self@);

    fn from_bytes(b: &[u8]) -> (r: Option<Self>)
        ensures
            match (r, Self::spec_from_bytes(b@)) {
                (Some(m), Some(v)) => m@ == v && m.wf(),
                (None, None) => true,
                _ => false,
            };

    /// Decoding an encoded message yields the message back.
    proof fn lemma_round_trip(&self)
        requires
            self.wf(),
        ensures
            Self::spec_from_bytes(Self::spec_to_bytes(self@)) == Some(self@);
}

} // verus!
