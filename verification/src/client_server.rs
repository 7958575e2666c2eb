//! Client-to-server protocol messages and their wire codec.

use vstd::prelude::*;
use crate::{Connection, LeaderboardEntry, LeaderboardEntryV, NetAddr, PacmanMessage};
use crate::codec::{
    enc_u8, enc_str, enc_addr, enc_conn, enc_entry, str_fits,
    dec_u8, dec_str, dec_addr, dec_conn, dec_entry,
    lemma_dec_u8, lemma_dec_str, lemma_dec_addr, lemma_dec_conn, lemma_dec_entry,
    put_u8, put_str, put_addr, put_conn, put_entry,
    get_u8, get_str, get_addr, get_conn, get_entry,
};

verus! {

/// Payload of a request to create a new user account.
#[derive(Clone, Debug, PartialEq, Eq)]
pub struct CreateUserRequest {
    pub user: String,
    pub passwd: String,
}

/// Payload of a request to authenticate as an existing user.
#[derive(Clone, Debug, PartialEq, Eq)]
pub struct LoginRequest {
    pub user: String,
    pub passwd: String,
}

/// Payload of a request to replace the logged-in user's password.
#[derive(Clone, Debug, PartialEq, Eq)]
pub struct ChangePasswordRequest {
    pub old_passwd: String,
    pub new_passwd: String,
}

/// Payload of a request to host a game: the address the host listens on
/// for the peer connection.
#[derive(Clone, Copy, Debug, PartialEq, Eq, Structural)]
pub struct CreateGameRequest {
    pub listener_addr: NetAddr,
}

/// Payload of a request to join the game hosted by the named user.
#[derive(Clone, Debug, PartialEq, Eq)]
pub struct JoinGameRequest {
    pub pacman: String,
}

/// Everything a client can ask of the server.
#[derive(Clone, Debug, PartialEq, Eq)]
pub enum MessageEnum {
    ConnectRequest,
    Disconnect,
    Heartbeat,
    CreateUserRequest(CreateUserRequest),
    LoginRequest(LoginRequest),
    ChangePasswordRequest(ChangePasswordRequest),
    LogoutRequest,
    QuitGameRequest,
    ConnectedUsersRequest,
    CreateGameRequest(CreateGameRequest),
    JoinGameRequest(JoinGameRequest),
    LeaderboardRequest,
    AddLeaderboardEntry(LeaderboardEntry),
}

/// A request together with the connection identity replies go to.
#[derive(Clone, Debug, PartialEq, Eq)]
pub struct Message {
    pub connection: Connection,
    pub message: MessageEnum,
}

/// The mathematical value of a request.
pub enum MessageEnumV {
    ConnectRequest,
    Disconnect,
    Heartbeat,
    CreateUserRequest { user: Seq<char>, passwd: Seq<char> },
    LoginRequest { user: Seq<char>, passwd: Seq<char> },
    ChangePasswordRequest { old_passwd: Seq<char>, new_passwd: Seq<char> },
    LogoutRequest,
    QuitGameRequest,
    ConnectedUsersRequest,
    CreateGameRequest { listener_addr: NetAddr },
    JoinGameRequest { pacman: Seq<char> },
    LeaderboardRequest,
    AddLeaderboardEntry(LeaderboardEntryV),
}

/// The mathematical value of a tagged request.
pub struct MessageV {
    pub connection: Connection,
    pub message: MessageEnumV,
}

impl View for MessageEnum {
    type V = MessageEnumV;

    open spec fn view(&self) -> MessageEnumV {
        match self {
            MessageEnum::ConnectRequest => MessageEnumV::ConnectRequest,
            MessageEnum::Disconnect => MessageEnumV::Disconnect,
            MessageEnum::Heartbeat => MessageEnumV::Heartbeat,
            MessageEnum::CreateUserRequest(r) => MessageEnumV::CreateUserRequest {
                user: r.user@,
                passwd: r.passwd@,
            },
            MessageEnum::LoginRequest(r) => MessageEnumV::LoginRequest {
                user: r.user@,
                passwd: r.passwd@,
            },
            MessageEnum::ChangePasswordRequest(r) => MessageEnumV::ChangePasswordRequest {
                old_passwd: r.old_passwd@,
                new_passwd: r.new_passwd@,
            },
            MessageEnum::LogoutRequest => MessageEnumV::LogoutRequest,
            MessageEnum::QuitGameRequest => MessageEnumV::QuitGameRequest,
            MessageEnum::ConnectedUsersRequest => MessageEnumV::ConnectedUsersRequest,
            MessageEnum::CreateGameRequest(r) => MessageEnumV::CreateGameRequest {
                listener_addr: r.listener_addr,
            },
            MessageEnum::JoinGameRequest(r) => MessageEnumV::JoinGameRequest {
                pacman: r.pacman@,
            },
            MessageEnum::LeaderboardRequest => MessageEnumV::LeaderboardRequest,
            MessageEnum::AddLeaderboardEntry(e) => MessageEnumV::AddLeaderboardEntry(e@),
        }
    }
}

impl View for Message {
    type V = MessageV;

    open spec fn view(&self) -> MessageV {
        MessageV { connection: self.connection, message: self.message@ }
    }
}

/// Machine-limit side condition: each string fits the 64-bit length prefix.
pub open spec fn wf_enum(v: MessageEnumV) -> bool {
    match v {
        MessageEnumV::CreateUserRequest { user, passwd } => str_fits(user) && str_fits(passwd),
        MessageEnumV::LoginRequest { user, passwd } => str_fits(user) && str_fits(passwd),
        MessageEnumV::ChangePasswordRequest { old_passwd, new_passwd } =>
            str_fits(old_passwd) && str_fits(new_passwd),
        MessageEnumV::JoinGameRequest { pacman } => str_fits(pacman),
        MessageEnumV::AddLeaderboardEntry(e) => str_fits(e.user),
        _ => true,
    }
}

pub open spec fn enc_enum(v: MessageEnumV) -> Seq<u8> {
    match v {
        MessageEnumV::ConnectRequest => enc_u8(0),
        MessageEnumV::Disconnect => enc_u8(1),
        MessageEnumV::Heartbeat => enc_u8(2),
        MessageEnumV::CreateUserRequest { user, passwd } =>
            enc_u8(3) + enc_str(user) + enc_str(passwd),
        MessageEnumV::LoginRequest { user, passwd } =>
            enc_u8(4) + enc_str(user) + enc_str(passwd),
        MessageEnumV::ChangePasswordRequest { old_passwd, new_passwd } =>
            enc_u8(5) + enc_str(old_passwd) + enc_str(new_passwd),
        MessageEnumV::LogoutRequest => enc_u8(6),
        MessageEnumV::QuitGameRequest => enc_u8(7),
        MessageEnumV::ConnectedUsersRequest => enc_u8(8),
        MessageEnumV::CreateGameRequest { listener_addr } => enc_u8(9) + enc_addr(listener_addr),
        MessageEnumV::JoinGameRequest { pacman } => enc_u8(10) + enc_str(pacman),
        MessageEnumV::LeaderboardRequest => enc_u8(11),
        MessageEnumV::AddLeaderboardEntry(e) => enc_u8(12) + enc_entry(e),
    }
}

pub open spec fn dec_enum(b: Seq<u8>, i: int) -> Option<(MessageEnumV, int)> {
    match dec_u8(b, i) {
        None => None,
        Some((t, j)) => {
            if t == 0 {
                Some((MessageEnumV::ConnectRequest, j))
            } else if t == 1 {
                Some((MessageEnumV::Disconnect, j))
            } else if t == 2 {
                Some((MessageEnumV::Heartbeat, j))
            } else if t == 3 {
                match dec_two_str(b, j) {
                    None => None,
                    Some(((user, passwd), k)) =>
                        Some((MessageEnumV::CreateUserRequest { user, passwd }, k)),
                }
            } else if t == 4 {
                match dec_two_str(b, j) {
                    None => None,
                    Some(((user, passwd), k)) =>
                        Some((MessageEnumV::LoginRequest { user, passwd }, k)),
                }
            } else if t == 5 {
                match dec_two_str(b, j) {
                    None => None,
                    Some(((old_passwd, new_passwd), k)) =>
                        Some((MessageEnumV::ChangePasswordRequest { old_passwd, new_passwd }, k)),
                }
            } else if t == 6 {
                Some((MessageEnumV::LogoutRequest, j))
            } else if t == 7 {
                Some((MessageEnumV::QuitGameRequest, j))
            } else if t == 8 {
                Some((MessageEnumV::ConnectedUsersRequest, j))
            } else if t == 9 {
                match dec_addr(b, j) {
                    None => None,
                    Some((listener_addr, k)) =>
                        Some((MessageEnumV::CreateGameRequest { listener_addr }, k)),
                }
            } else if t == 10 {
                match dec_str(b, j) {
                    None => None,
                    Some((pacman, k)) => Some((MessageEnumV::JoinGameRequest { pacman }, k)),
                }
            } else if t == 11 {
                Some((MessageEnumV::LeaderboardRequest, j))
            } else if t == 12 {
                match dec_entry(b, j) {
                    None => None,
                    Some((e, k)) => Some((MessageEnumV::AddLeaderboardEntry(e), k)),
                }
            } else {
                None
            }
        },
    }
}

/// Two length-prefixed strings, one after the other.
pub open spec fn dec_two_str(b: Seq<u8>, i: int) -> Option<((Seq<char>, Seq<char>), int)> {
    match dec_str(b, i) {
        None => None,
        Some((a, j)) => match dec_str(b, j) {
            None => None,
            Some((c, k)) => Some(((a, c), k)),
        },
    }
}

proof fn lemma_dec_two_str(pre: Seq<u8>, a: Seq<char>, c: Seq<char>, suf: Seq<u8>)
    requires
        str_fits(a),
        str_fits(c),
    ensures
        dec_two_str(pre + (enc_str(a) + enc_str(c)) + suf, pre.len() as int)
            == Some(((a, c), pre.len() + (enc_str(a) + enc_str(c)).len() as int)),
{
    assert(pre + (enc_str(a) + enc_str(c)) + suf =~= pre + enc_str(a) + (enc_str(c) + suf));
    lemma_dec_str(pre, a, enc_str(c) + suf);
    assert(pre + enc_str(a) + (enc_str(c) + suf) =~= (pre + enc_str(a)) + enc_str(c) + suf);
    lemma_dec_str(pre + enc_str(a), c, suf);
}

#[verifier::rlimit(60)]
#[verifier::spinoff_prover]
pub proof fn lemma_dec_enum(pre: Seq<u8>, v: MessageEnumV, suf: Seq<u8>)
    requires
        wf_enum(v),
    ensures
        dec_enum(pre + enc_enum(v) + suf, pre.len() as int)
            == Some((v, pre.len() + enc_enum(v).len() as int)),
{
    match v {
        MessageEnumV::ConnectRequest => {
            assert(pre + enc_enum(v) + suf =~= pre + enc_u8(0) + suf);
            lemma_dec_u8(pre, 0, suf);
        },
        MessageEnumV::Disconnect => {
            assert(pre + enc_enum(v) + suf =~= pre + enc_u8(1) + suf);
            lemma_dec_u8(pre, 1, suf);
        },
        MessageEnumV::Heartbeat => {
            assert(pre + enc_enum(v) + suf =~= pre + enc_u8(2) + suf);
            lemma_dec_u8(pre, 2, suf);
        },
        MessageEnumV::CreateUserRequest { user, passwd } => {
            let pay = enc_str(user) + enc_str(passwd);
            assert(pre + enc_enum(v) + suf =~= pre + enc_u8(3) + (pay + suf));
            lemma_dec_u8(pre, 3, pay + suf);
            assert(pre + enc_u8(3) + (pay + suf) =~= (pre + enc_u8(3)) + pay + suf);
            lemma_dec_two_str(pre + enc_u8(3), user, passwd, suf);
        },
        MessageEnumV::LoginRequest { user, passwd } => {
            let pay = enc_str(user) + enc_str(passwd);
            assert(pre + enc_enum(v) + suf =~= pre + enc_u8(4) + (pay + suf));
            lemma_dec_u8(pre, 4, pay + suf);
            assert(pre + enc_u8(4) + (pay + suf) =~= (pre + enc_u8(4)) + pay + suf);
            lemma_dec_two_str(pre + enc_u8(4), user, passwd, suf);
        },
        MessageEnumV::ChangePasswordRequest { old_passwd, new_passwd } => {
            let pay = enc_str(old_passwd) + enc_str(new_passwd);
            assert(pre + enc_enum(v) + suf =~= pre + enc_u8(5) + (pay + suf));
            lemma_dec_u8(pre, 5, pay + suf);
            assert(pre + enc_u8(5) + (pay + suf) =~= (pre + enc_u8(5)) + pay + suf);
            lemma_dec_two_str(pre + enc_u8(5), old_passwd, new_passwd, suf);
        },
        MessageEnumV::LogoutRequest => {
            assert(pre + enc_enum(v) + suf =~= pre + enc_u8(6) + suf);
            lemma_dec_u8(pre, 6, suf);
        },
        MessageEnumV::QuitGameRequest => {
            assert(pre + enc_enum(v) + suf =~= pre + enc_u8(7) + suf);
            lemma_dec_u8(pre, 7, suf);
        },
        MessageEnumV::ConnectedUsersRequest => {
            assert(pre + enc_enum(v) + suf =~= pre + enc_u8(8) + suf);
            lemma_dec_u8(pre, 8, suf);
        },
        MessageEnumV::CreateGameRequest { listener_addr } => {
            let pay = enc_addr(listener_addr);
            assert(pre + enc_enum(v) + suf =~= pre + enc_u8(9) + (pay + suf));
            lemma_dec_u8(pre, 9, pay + suf);
            assert(pre + enc_u8(9) + (pay + suf) =~= (pre + enc_u8(9)) + pay + suf);
            lemma_dec_addr(pre + enc_u8(9), listener_addr, suf);
        },
        MessageEnumV::JoinGameRequest { pacman } => {
            let pay = enc_str(pacman);
            assert(pre + enc_enum(v) + suf =~= pre + enc_u8(10) + (pay + suf));
            lemma_dec_u8(pre, 10, pay + suf);
            assert(pre + enc_u8(10) + (pay + suf) =~= (pre + enc_u8(10)) + pay + suf);
            lemma_dec_str(pre + enc_u8(10), pacman, suf);
        },
        MessageEnumV::LeaderboardRequest => {
            assert(pre + enc_enum(v) + suf =~= pre + enc_u8(11) + suf);
            lemma_dec_u8(pre, 11, suf);
        },
        MessageEnumV::AddLeaderboardEntry(e) => {
            let pay = enc_entry(e);
            assert(pre + enc_enum(v) + suf =~= pre + enc_u8(12) + (pay + suf));
            lemma_dec_u8(pre, 12, pay + suf);
            assert(pre + enc_u8(12) + (pay + suf) =~= (pre + enc_u8(12)) + pay + suf);
            lemma_dec_entry(pre + enc_u8(12), e, suf);
        },
    }
}

pub open spec fn enc_msg(v: MessageV) -> Seq<u8> {
    enc_conn(v.connection) + enc_enum(v.message)
}

pub open spec fn dec_msg(b: Seq<u8>, i: int) -> Option<(MessageV, int)> {
    match dec_conn(b, i) {
        None => None,
        Some((connection, j)) => match dec_enum(b, j) {
            None => None,
            Some((message, k)) => Some((MessageV { connection, message }, k)),
        },
    }
}

pub proof fn lemma_dec_msg(pre: Seq<u8>, v: MessageV, suf: Seq<u8>)
    requires
        wf_enum(v.message),
    ensures
        dec_msg(pre + enc_msg(v) + suf, pre.len() as int)
            == Some((v, pre.len() + enc_msg(v).len() as int)),
{
    assert(pre + enc_msg(v) + suf
        =~= pre + enc_conn(v.connection) + (enc_enum(v.message) + suf));
    lemma_dec_conn(pre, v.connection, enc_enum(v.message) + suf);
    assert(pre + enc_conn(v.connection) + (enc_enum(v.message) + suf)
        =~= (pre + enc_conn(v.connection)) + enc_enum(v.message) + suf);
    lemma_dec_enum(pre + enc_conn(v.connection), v.message, suf);
}

fn put_enum(out: &mut Vec<u8>, m: &MessageEnum)
    ensures
        final(out)@ == old(out)@ + enc_enum(m@),
        wf_enum(m@),
{
    match m {
        MessageEnum::ConnectRequest => put_u8(out, 0),
        MessageEnum::Disconnect => put_u8(out, 1),
        MessageEnum::Heartbeat => put_u8(out, 2),
        MessageEnum::CreateUserRequest(r) => {
            put_u8(out, 3);
            put_str(out, r.user.as_str());
            put_str(out, r.passwd.as_str());
        },
        MessageEnum::LoginRequest(r) => {
            put_u8(out, 4);
            put_str(out, r.user.as_str());
            put_str(out, r.passwd.as_str());
        },
        MessageEnum::ChangePasswordRequest(r) => {
            put_u8(out, 5);
            put_str(out, r.old_passwd.as_str());
            put_str(out, r.new_passwd.as_str());
        },
        MessageEnum::LogoutRequest => put_u8(out, 6),
        MessageEnum::QuitGameRequest => put_u8(out, 7),
        MessageEnum::ConnectedUsersRequest => put_u8(out, 8),
        MessageEnum::CreateGameRequest(r) => {
            put_u8(out, 9);
            put_addr(out, r.listener_addr);
        },
        MessageEnum::JoinGameRequest(r) => {
            put_u8(out, 10);
            put_str(out, r.pacman.as_str());
        },
        MessageEnum::LeaderboardRequest => put_u8(out, 11),
        MessageEnum::AddLeaderboardEntry(e) => {
            put_u8(out, 12);
            put_entry(out, e);
        },
    }
}

fn get_enum(b: &[u8], pos: usize) -> (r: Option<(MessageEnum, usize)>)
    ensures
        dec_enum(b@, pos as int) matches Some((v, j))
            ==> r matches Some((rm, rj)) && rm@ == v && rj == j && wf_enum(rm@),
        dec_enum(b@, pos as int) is None ==> r is None,
{
    proof { crate::codec::lemma_slice_len_bound(b); }
    match get_u8(b, pos) {
        None => None,
        Some((t, j)) => {
            if t == 0 {
                Some((MessageEnum::ConnectRequest, j))
            } else if t == 1 {
                Some((MessageEnum::Disconnect, j))
            } else if t == 2 {
                Some((MessageEnum::Heartbeat, j))
            } else if t == 3 {
                match get_str(b, j) {
                    None => None,
                    Some((user, k)) => match get_str(b, k) {
                        None => None,
                        Some((passwd, l)) => Some((
                            MessageEnum::CreateUserRequest(CreateUserRequest { user, passwd }),
                            l,
                        )),
                    },
                }
            } else if t == 4 {
                match get_str(b, j) {
                    None => None,
                    Some((user, k)) => match get_str(b, k) {
                        None => None,
                        Some((passwd, l)) => Some((
                            MessageEnum::LoginRequest(LoginRequest { user, passwd }),
                            l,
                        )),
                    },
                }
            } else if t == 5 {
                match get_str(b, j) {
                    None => None,
                    Some((old_passwd, k)) => match get_str(b, k) {
                        None => None,
                        Some((new_passwd, l)) => Some((
                            MessageEnum::ChangePasswordRequest(ChangePasswordRequest {
                                old_passwd,
                                new_passwd,
                            }),
                            l,
                        )),
                    },
                }
            } else if t == 6 {
                Some((MessageEnum::LogoutRequest, j))
            } else if t == 7 {
                Some((MessageEnum::QuitGameRequest, j))
            } else if t == 8 {
                Some((MessageEnum::ConnectedUsersRequest, j))
            } else if t == 9 {
                match get_addr(b, j) {
                    None => None,
                    Some((listener_addr, k)) => Some((
                        MessageEnum::CreateGameRequest(CreateGameRequest { listener_addr }),
                        k,
                    )),
                }
            } else if t == 10 {
                match get_str(b, j) {
                    None => None,
                    Some((pacman, k)) => Some((
                        MessageEnum::JoinGameRequest(JoinGameRequest { pacman }),
                        k,
                    )),
                }
            } else if t == 11 {
                Some((MessageEnum::LeaderboardRequest, j))
            } else if t == 12 {
                match get_entry(b, j) {
                    None => None,
                    Some((e, k)) => Some((MessageEnum::AddLeaderboardEntry(e), k)),
                }
            } else {
                None
            }
        },
    }
}

impl PacmanMessage for Message {
    open spec fn wf(&self) -> bool {
        wf_enum(self.message@)
    }

    open spec fn spec_to_bytes(v: MessageV) -> Seq<u8> {
        enc_msg(v)
    }

    open spec fn spec_from_bytes(b: Seq<u8>) -> Option<MessageV> {
        match dec_msg(b, 0) {
            None => None,
            Some((v, j)) => if j == b.len() {
                Some(v)
            } else {
                None
            },
        }
    }

    fn to_bytes(&self) -> (r: Vec<u8>)
        ensures
            r@ == enc_msg(self@),
    {
        let mut out: Vec<u8> = Vec::new();
        put_conn(&mut out, self.connection);
        put_enum(&mut out, &self.message);
        proof {
            assert(out@ =~= enc_msg(self@));
        }
        out
    }

    fn from_bytes(b: &[u8]) -> (r: Option<Message>)
        ensures
            match (r, Self::spec_from_bytes(b@)) {
                (Some(m), Some(v)) => m@ == v && m.wf(),
                (None, None) => true,
                _ => false,
            },
    {
        proof { crate::codec::lemma_slice_len_bound(b); }
        match get_conn(b, 0) {
            None => None,
            Some((connection, j)) => match get_enum(b, j) {
                None => None,
                Some((message, k)) => {
                    if k == b.len() {
                        Some(Message { connection, message })
                    } else {
                        None
                    }
                },
            },
        }
    }

    proof fn lemma_round_trip(&self)
        ensures
            Self::spec_from_bytes(Self::spec_to_bytes(self@)) == Some(self@),
    {
        let v = self@;
        let e = Seq::<u8>::empty();
        lemma_dec_msg(e, v, e);
        assert(e + enc_msg(v) + e =~= enc_msg(v));
    }
}

} // verus!
