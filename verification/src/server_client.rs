//! Server-to-client protocol messages and their wire codec.

use vstd::prelude::*;
use crate::{LeaderboardEntry, LeaderboardEntryV, NetAddr, PacmanMessage};
use crate::codec::{
    enc_u8, enc_u64, enc_str, enc_addr, enc_entry, str_fits,
    dec_u8, dec_u64, dec_str, dec_addr, dec_entry,
    lemma_dec_u8, lemma_dec_u64, lemma_dec_str, lemma_dec_addr, lemma_dec_entry,
    lemma_slice_len_bound,
    put_u8, put_u64, put_str, put_addr, put_entry,
    get_u8, get_u64, get_str, get_addr, get_entry,
};

verus! {

/// Reply to a request to create a user account.
#[derive(Clone, Copy, Debug, PartialEq, Eq, Structural)]
pub enum CreateUserResponse {
    Accepted,
    Rejected,
}

/// Reply to a login attempt.
#[derive(Clone, Copy, Debug, PartialEq, Eq, Structural)]
pub enum LoginResponse {
    Accepted,
    Rejected,
}

/// Reply to a password change.
#[derive(Clone, Copy, Debug, PartialEq, Eq, Structural)]
pub enum ChangePasswordResponse {
    Accepted,
    Rejected,
}

/// Reply to a request to host a game.
#[derive(Clone, Copy, Debug, PartialEq, Eq, Structural)]
pub enum CreateGameResponse {
    Accepted,
    Rejected,
}

/// Reply to a request to join a hosted game: on success, the address the
/// host listens on.
#[derive(Clone, Copy, Debug, PartialEq, Eq, Structural)]
pub enum JoinGameResponse {
    Accepted(NetAddr),
    Rejected,
}

/// What a logged-in user is currently doing, with the partner's name where
/// a pairing exists.
#[derive(Clone, Debug, PartialEq, Eq)]
pub enum UserGameStatus {
    Idle,
    Hosting(Option<String>),
    Joined(String),
}

/// One row of the connected-users listing.
#[derive(Clone, Debug, PartialEq, Eq)]
pub struct UserStatusEntry {
    pub user: String,
    pub status: UserGameStatus,
}

/// Reply to a connected-users query: every logged-in user, annotated with
/// game status and partner.
#[derive(Clone, Debug, PartialEq, Eq)]
pub struct ConnectedUsersResponse {
    pub users: Vec<UserStatusEntry>,
}

/// Reply to a leaderboard query: the stored rows, highest score first.
#[derive(Clone, Debug, PartialEq, Eq)]
pub struct LeaderboardResponse {
    pub top10: Vec<LeaderboardEntry>,
}

/// Everything the server can say to a client.
#[derive(Clone, Debug, PartialEq, Eq)]
pub enum Message {
    Heartbeat,
    ConnectResponse,
    CreateUserResponse(CreateUserResponse),
    LoginResponse(LoginResponse),
    ChangePasswordResponse(ChangePasswordResponse),
    LogoutResponse,
    CreateGameResponse(CreateGameResponse),
    JoinGameResponse(JoinGameResponse),
    ConnectedUsersResponse(ConnectedUsersResponse),
    LeaderboardResponse(LeaderboardResponse),
    NotConnected,
}

/// The mathematical value of a user-status row.
pub enum UserGameStatusV {
    Idle,
    Hosting(Option<Seq<char>>),
    Joined(Seq<char>),
}

pub struct UserStatusEntryV {
    pub user: Seq<char>,
    pub status: UserGameStatusV,
}

/// The mathematical value of a reply.
pub enum MessageV {
    Heartbeat,
    ConnectResponse,
    CreateUserResponse(CreateUserResponse),
    LoginResponse(LoginResponse),
    ChangePasswordResponse(ChangePasswordResponse),
    LogoutResponse,
    CreateGameResponse(CreateGameResponse),
    JoinGameResponse(JoinGameResponse),
    ConnectedUsersResponse(Seq<UserStatusEntryV>),
    LeaderboardResponse(Seq<LeaderboardEntryV>),
    NotConnected,
}

impl View for UserGameStatus {
    type V = UserGameStatusV;

    open spec fn view(&self) -> UserGameStatusV {
        match self {
            UserGameStatus::Idle => UserGameStatusV::Idle,
            UserGameStatus::Hosting(p) => UserGameStatusV::Hosting(
                match p {
                    Some(s) => Some(s@),
                    None => None,
                },
            ),
            UserGameStatus::Joined(g) => UserGameStatusV::Joined(g@),
        }
    }
}

impl View for UserStatusEntry {
    type V = UserStatusEntryV;

    open spec fn view(&self) -> UserStatusEntryV {
        UserStatusEntryV { user: self.user@, status: self.status@ }
    }
}

/// The sequence of row values a vector of rows stands for.
pub open spec fn user_views(s: Seq<UserStatusEntry>) -> Seq<UserStatusEntryV> {
    s.map_values(|e: UserStatusEntry| e@)
}

/// The sequence of row values a vector of leaderboard rows stands for.
pub open spec fn entry_views(s: Seq<LeaderboardEntry>) -> Seq<LeaderboardEntryV> {
    s.map_values(|e: LeaderboardEntry| e@)
}

impl View for Message {
    type V = MessageV;

    open spec fn view(&self) -> MessageV {
        match self {
            Message::Heartbeat => MessageV::Heartbeat,
            Message::ConnectResponse => MessageV::ConnectResponse,
            Message::CreateUserResponse(r) => MessageV::CreateUserResponse(*r),
            Message::LoginResponse(r) => MessageV::LoginResponse(*r),
            Message::ChangePasswordResponse(r) => MessageV::ChangePasswordResponse(*r),
            Message::LogoutResponse => MessageV::LogoutResponse,
            Message::CreateGameResponse(r) => MessageV::CreateGameResponse(*r),
            Message::JoinGameResponse(r) => MessageV::JoinGameResponse(*r),
            Message::ConnectedUsersResponse(r) => MessageV::ConnectedUsersResponse(
                user_views(r.users@),
            ),
            Message::LeaderboardResponse(r) => MessageV::LeaderboardResponse(
                entry_views(r.top10@),
            ),
            Message::NotConnected => MessageV::NotConnected,
        }
    }
}

// ---------------------------------------------------------------------------
// Wire layout of a user-status row
// ---------------------------------------------------------------------------

pub open spec fn wf_status(v: UserGameStatusV) -> bool {
    match v {
        UserGameStatusV::Idle => true,
        UserGameStatusV::Hosting(p) => match p {
            Some(s) => str_fits(s),
            None => true,
        },
        UserGameStatusV::Joined(g) => str_fits(g),
    }
}

pub open spec fn enc_status(v: UserGameStatusV) -> Seq<u8> {
    match v {
        UserGameStatusV::Idle => enc_u8(0),
        UserGameStatusV::Hosting(p) => match p {
            None => enc_u8(1) + enc_u8(0),
            Some(s) => enc_u8(1) + enc_u8(1) + enc_str(s),
        },
        UserGameStatusV::Joined(g) => enc_u8(2) + enc_str(g),
    }
}

pub open spec fn dec_status(b: Seq<u8>, i: int) -> Option<(UserGameStatusV, int)> {
    match dec_u8(b, i) {
        None => None,
        Some((t, j)) => {
            if t == 0 {
                Some((UserGameStatusV::Idle, j))
            } else if t == 1 {
                match dec_u8(b, j) {
                    None => None,
                    Some((o, k)) => {
                        if o == 0 {
                            Some((UserGameStatusV::Hosting(None), k))
                        } else if o == 1 {
                            match dec_str(b, k) {
                                None => None,
                                Some((s, l)) => Some((UserGameStatusV::Hosting(Some(s)), l)),
                            }
                        } else {
                            None
                        }
                    },
                }
            } else if t == 2 {
                match dec_str(b, j) {
                    None => None,
                    Some((g, k)) => Some((UserGameStatusV::Joined(g), k)),
                }
            } else {
                None
            }
        },
    }
}

proof fn lemma_dec_status(pre: Seq<u8>, v: UserGameStatusV, suf: Seq<u8>)
    requires
        wf_status(v),
    ensures
        dec_status(pre + enc_status(v) + suf, pre.len() as int)
            == Some((v, pre.len() + enc_status(v).len() as int)),
{
    match v {
        UserGameStatusV::Idle => {
            assert(pre + enc_status(v) + suf =~= pre + enc_u8(0) + suf);
            lemma_dec_u8(pre, 0, suf);
        },
        UserGameStatusV::Hosting(p) => match p {
            None => {
                assert(pre + enc_status(v) + suf =~= pre + enc_u8(1) + (enc_u8(0) + suf));
                lemma_dec_u8(pre, 1, enc_u8(0) + suf);
                assert(pre + enc_u8(1) + (enc_u8(0) + suf)
                    =~= (pre + enc_u8(1)) + enc_u8(0) + suf);
                lemma_dec_u8(pre + enc_u8(1), 0, suf);
            },
            Some(s) => {
                assert(pre + enc_status(v) + suf
                    =~= pre + enc_u8(1) + (enc_u8(1) + (enc_str(s) + suf)));
                lemma_dec_u8(pre, 1, enc_u8(1) + (enc_str(s) + suf));
                assert(pre + enc_u8(1) + (enc_u8(1) + (enc_str(s) + suf))
                    =~= (pre + enc_u8(1)) + enc_u8(1) + (enc_str(s) + suf));
                lemma_dec_u8(pre + enc_u8(1), 1, enc_str(s) + suf);
                assert((pre + enc_u8(1)) + enc_u8(1) + (enc_str(s) + suf)
                    =~= ((pre + enc_u8(1)) + enc_u8(1)) + enc_str(s) + suf);
                lemma_dec_str((pre + enc_u8(1)) + enc_u8(1), s, suf);
            },
        },
        UserGameStatusV::Joined(g) => {
            assert(pre + enc_status(v) + suf =~= pre + enc_u8(2) + (enc_str(g) + suf));
            lemma_dec_u8(pre, 2, enc_str(g) + suf);
            assert(pre + enc_u8(2) + (enc_str(g) + suf)
                =~= (pre + enc_u8(2)) + enc_str(g) + suf);
            lemma_dec_str(pre + enc_u8(2), g, suf);
        },
    }
}

pub open spec fn wf_user_entry(v: UserStatusEntryV) -> bool {
    str_fits(v.user) && wf_status(v.status)
}

pub open spec fn enc_user_entry(v: UserStatusEntryV) -> Seq<u8> {
    enc_str(v.user) + enc_status(v.status)
}

pub open spec fn dec_user_entry(b: Seq<u8>, i: int) -> Option<(UserStatusEntryV, int)> {
    match dec_str(b, i) {
        None => None,
        Some((user, j)) => match dec_status(b, j) {
            None => None,
            Some((status, k)) => Some((UserStatusEntryV { user, status }, k)),
        },
    }
}

proof fn lemma_dec_user_entry(pre: Seq<u8>, v: UserStatusEntryV, suf: Seq<u8>)
    requires
        wf_user_entry(v),
    ensures
        dec_user_entry(pre + enc_user_entry(v) + suf, pre.len() as int)
            == Some((v, pre.len() + enc_user_entry(v).len() as int)),
{
    assert(pre + enc_user_entry(v) + suf
        =~= pre + enc_str(v.user) + (enc_status(v.status) + suf));
    lemma_dec_str(pre, v.user, enc_status(v.status) + suf);
    assert(pre + enc_str(v.user) + (enc_status(v.status) + suf)
        =~= (pre + enc_str(v.user)) + enc_status(v.status) + suf);
    lemma_dec_status(pre + enc_str(v.user), v.status, suf);
}

// ---------------------------------------------------------------------------
// Wire layout of the two lists: a count, then the rows one after the other
// ---------------------------------------------------------------------------

pub open spec fn enc_user_rows(s: Seq<UserStatusEntryV>) -> Seq<u8>
    decreases s.len(),
{
    if s.len() == 0 {
        Seq::empty()
    } else {
        enc_user_entry(s[0]) + enc_user_rows(s.drop_first())
    }
}

pub open spec fn dec_user_rows(b: Seq<u8>, i: int, n: int) -> Option<(Seq<UserStatusEntryV>, int)>
    decreases n,
{
    if n <= 0 {
        Some((Seq::empty(), i))
    } else {
        match dec_user_entry(b, i) {
            None => None,
            Some((e, j)) => match dec_user_rows(b, j, n - 1) {
                None => None,
                Some((rest, k)) => Some((seq![e] + rest, k)),
            },
        }
    }
}

pub open spec fn enc_lb_rows(s: Seq<LeaderboardEntryV>) -> Seq<u8>
    decreases s.len(),
{
    if s.len() == 0 {
        Seq::empty()
    } else {
        enc_entry(s[0]) + enc_lb_rows(s.drop_first())
    }
}

pub open spec fn dec_lb_rows(b: Seq<u8>, i: int, n: int) -> Option<(Seq<LeaderboardEntryV>, int)>
    decreases n,
{
    if n <= 0 {
        Some((Seq::empty(), i))
    } else {
        match dec_entry(b, i) {
            None => None,
            Some((e, j)) => match dec_lb_rows(b, j, n - 1) {
                None => None,
                Some((rest, k)) => Some((seq![e] + rest, k)),
            },
        }
    }
}

pub open spec fn wf_user_rows(s: Seq<UserStatusEntryV>) -> bool {
    s.len() <= u64::MAX && forall|i: int| 0 <= i < s.len() ==> wf_user_entry(#[trigger] s[i])
}

pub open spec fn wf_lb_rows(s: Seq<LeaderboardEntryV>) -> bool {
    s.len() <= u64::MAX && forall|i: int| 0 <= i < s.len() ==> str_fits((#[trigger] s[i]).user)
}

pub open spec fn enc_user_list(s: Seq<UserStatusEntryV>) -> Seq<u8> {
    enc_u64(s.len() as u64) + enc_user_rows(s)
}

pub open spec fn dec_user_list(b: Seq<u8>, i: int) -> Option<(Seq<UserStatusEntryV>, int)> {
    match dec_u64(b, i) {
        None => None,
        Some((n, j)) => dec_user_rows(b, j, n as int),
    }
}

pub open spec fn enc_lb_list(s: Seq<LeaderboardEntryV>) -> Seq<u8> {
    enc_u64(s.len() as u64) + enc_lb_rows(s)
}

pub open spec fn dec_lb_list(b: Seq<u8>, i: int) -> Option<(Seq<LeaderboardEntryV>, int)> {
    match dec_u64(b, i) {
        None => None,
        Some((n, j)) => dec_lb_rows(b, j, n as int),
    }
}

proof fn lemma_dec_user_rows(pre: Seq<u8>, s: Seq<UserStatusEntryV>, suf: Seq<u8>)
    requires
        forall|i: int| 0 <= i < s.len() ==> wf_user_entry(#[trigger] s[i]),
    ensures
        dec_user_rows(pre + enc_user_rows(s) + suf, pre.len() as int, s.len() as int)
            == Some((s, pre.len() + enc_user_rows(s).len() as int)),
    decreases s.len(),
{
    if s.len() == 0 {
        assert(pre + enc_user_rows(s) + suf =~= pre + suf);
        assert(s =~= Seq::<UserStatusEntryV>::empty());
    } else {
        let e = s[0];
        let rest = s.drop_first();
        assert(pre + enc_user_rows(s) + suf
            =~= pre + enc_user_entry(e) + (enc_user_rows(rest) + suf));
        lemma_dec_user_entry(pre, e, enc_user_rows(rest) + suf);
        assert(pre + enc_user_entry(e) + (enc_user_rows(rest) + suf)
            =~= (pre + enc_user_entry(e)) + enc_user_rows(rest) + suf);
        lemma_dec_user_rows(pre + enc_user_entry(e), rest, suf);
        assert(seq![e] + rest =~= s);
    }
}

proof fn lemma_dec_lb_rows(pre: Seq<u8>, s: Seq<LeaderboardEntryV>, suf: Seq<u8>)
    requires
        forall|i: int| 0 <= i < s.len() ==> str_fits((#[trigger] s[i]).user),
    ensures
        dec_lb_rows(pre + enc_lb_rows(s) + suf, pre.len() as int, s.len() as int)
            == Some((s, pre.len() + enc_lb_rows(s).len() as int)),
    decreases s.len(),
{
    if s.len() == 0 {
        assert(pre + enc_lb_rows(s) + suf =~= pre + suf);
        assert(s =~= Seq::<LeaderboardEntryV>::empty());
    } else {
        let e = s[0];
        let rest = s.drop_first();
        assert(pre + enc_lb_rows(s) + suf
            =~= pre + enc_entry(e) + (enc_lb_rows(rest) + suf));
        lemma_dec_entry(pre, e, enc_lb_rows(rest) + suf);
        assert(pre + enc_entry(e) + (enc_lb_rows(rest) + suf)
            =~= (pre + enc_entry(e)) + enc_lb_rows(rest) + suf);
        lemma_dec_lb_rows(pre + enc_entry(e), rest, suf);
        assert(seq![e] + rest =~= s);
    }
}

proof fn lemma_dec_user_list(pre: Seq<u8>, s: Seq<UserStatusEntryV>, suf: Seq<u8>)
    requires
        wf_user_rows(s),
    ensures
        dec_user_list(pre + enc_user_list(s) + suf, pre.len() as int)
            == Some((s, pre.len() + enc_user_list(s).len() as int)),
{
    let n = s.len() as u64;
    assert(pre + enc_user_list(s) + suf =~= pre + enc_u64(n) + (enc_user_rows(s) + suf));
    lemma_dec_u64(pre, n, enc_user_rows(s) + suf);
    assert(pre + enc_u64(n) + (enc_user_rows(s) + suf)
        =~= (pre + enc_u64(n)) + enc_user_rows(s) + suf);
    lemma_dec_user_rows(pre + enc_u64(n), s, suf);
}

proof fn lemma_dec_lb_list(pre: Seq<u8>, s: Seq<LeaderboardEntryV>, suf: Seq<u8>)
    requires
        wf_lb_rows(s),
    ensures
        dec_lb_list(pre + enc_lb_list(s) + suf, pre.len() as int)
            == Some((s, pre.len() + enc_lb_list(s).len() as int)),
{
    let n = s.len() as u64;
    assert(pre + enc_lb_list(s) + suf =~= pre + enc_u64(n) + (enc_lb_rows(s) + suf));
    lemma_dec_u64(pre, n, enc_lb_rows(s) + suf);
    assert(pre + enc_u64(n) + (enc_lb_rows(s) + suf)
        =~= (pre + enc_u64(n)) + enc_lb_rows(s) + suf);
    lemma_dec_lb_rows(pre + enc_u64(n), s, suf);
}

// ---------------------------------------------------------------------------
// Executable list codecs
// ---------------------------------------------------------------------------

proof fn lemma_enc_user_rows_push(s: Seq<UserStatusEntryV>, e: UserStatusEntryV)
    ensures
        enc_user_rows(s.push(e)) == enc_user_rows(s) + enc_user_entry(e),
    decreases s.len(),
{
    if s.len() == 0 {
        assert(s.push(e).drop_first() =~= Seq::<UserStatusEntryV>::empty());
        assert(s.push(e)[0] == e);
        assert(enc_user_rows(Seq::<UserStatusEntryV>::empty()) == Seq::<u8>::empty());
        assert(enc_user_rows(s.push(e)) =~= enc_user_entry(e));
        assert(enc_user_rows(s) + enc_user_entry(e) =~= enc_user_entry(e));
    } else {
        assert(s.push(e).drop_first() =~= s.drop_first().push(e));
        lemma_enc_user_rows_push(s.drop_first(), e);
        assert(enc_user_rows(s.push(e))
            =~= enc_user_rows(s) + enc_user_entry(e));
    }
}

proof fn lemma_enc_lb_rows_push(s: Seq<LeaderboardEntryV>, e: LeaderboardEntryV)
    ensures
        enc_lb_rows(s.push(e)) == enc_lb_rows(s) + enc_entry(e),
    decreases s.len(),
{
    if s.len() == 0 {
        assert(s.push(e).drop_first() =~= Seq::<LeaderboardEntryV>::empty());
        assert(s.push(e)[0] == e);
        assert(enc_lb_rows(Seq::<LeaderboardEntryV>::empty()) == Seq::<u8>::empty());
        assert(enc_lb_rows(s.push(e)) =~= enc_entry(e));
        assert(enc_lb_rows(s) + enc_entry(e) =~= enc_entry(e));
    } else {
        assert(s.push(e).drop_first() =~= s.drop_first().push(e));
        lemma_enc_lb_rows_push(s.drop_first(), e);
        assert(enc_lb_rows(s.push(e))
            =~= enc_lb_rows(s) + enc_entry(e));
    }
}

fn put_status(out: &mut Vec<u8>, v: &UserGameStatus)
    ensures
        final(out)@ == old(out)@ + enc_status(v@),
        wf_status(v@),
{
    match v {
        UserGameStatus::Idle => put_u8(out, 0),
        UserGameStatus::Hosting(p) => {
            put_u8(out, 1);
            match p {
                None => put_u8(out, 0),
                Some(s) => {
                    put_u8(out, 1);
                    put_str(out, s.as_str());
                },
            }
        },
        UserGameStatus::Joined(g) => {
            put_u8(out, 2);
            put_str(out, g.as_str());
        },
    }
}

fn get_status(b: &[u8], pos: usize) -> (r: Option<(UserGameStatus, usize)>)
    ensures
        dec_status(b@, pos as int) matches Some((v, j))
            ==> r matches Some((rv, rj)) && rv@ == v && rj == j && wf_status(rv@),
        dec_status(b@, pos as int) is None ==> r is None,
{
    proof { lemma_slice_len_bound(b); }
    match get_u8(b, pos) {
        None => None,
        Some((t, j)) => {
            if t == 0 {
                Some((UserGameStatus::Idle, j))
            } else if t == 1 {
                match get_u8(b, j) {
                    None => None,
                    Some((o, k)) => {
                        if o == 0 {
                            Some((UserGameStatus::Hosting(None), k))
                        } else if o == 1 {
                            match get_str(b, k) {
                                None => None,
                                Some((s, l)) => Some((UserGameStatus::Hosting(Some(s)), l)),
                            }
                        } else {
                            None
                        }
                    },
                }
            } else if t == 2 {
                match get_str(b, j) {
                    None => None,
                    Some((g, k)) => Some((UserGameStatus::Joined(g), k)),
                }
            } else {
                None
            }
        },
    }
}

fn put_user_list(out: &mut Vec<u8>, rows: &Vec<UserStatusEntry>)
    ensures
        final(out)@ == old(out)@ + enc_user_list(user_views(rows@)),
        wf_user_rows(user_views(rows@)),
{
    let n = rows.len();
    put_u64(out, n as u64);
    let ghost base = out@;
    let mut i: usize = 0;
    while i < n
        invariant
            n == rows@.len(),
            i <= n,
            out@ == base + enc_user_rows(user_views(rows@).take(i as int)),
            forall|k: int| 0 <= k < i ==> wf_user_entry(#[trigger] user_views(rows@)[k]),
        decreases n - i,
    {
        let row = &rows[i];
        put_str(out, row.user.as_str());
        put_status(out, &row.status);
        proof {
            let views = user_views(rows@);
            assert(views.take(i as int).push(views[i as int]) =~= views.take(i + 1));
            lemma_enc_user_rows_push(views.take(i as int), views[i as int]);
            assert(enc_user_entry(views[i as int])
                == enc_str(row.user@) + enc_status(row.status@));
        }
        i += 1;
    }
    proof {
        assert(user_views(rows@).take(n as int) =~= user_views(rows@));
        assert(final(out)@ =~= old(out)@ + enc_user_list(user_views(rows@)));
    }
}

fn put_lb_list(out: &mut Vec<u8>, rows: &Vec<LeaderboardEntry>)
    ensures
        final(out)@ == old(out)@ + enc_lb_list(entry_views(rows@)),
        wf_lb_rows(entry_views(rows@)),
{
    let n = rows.len();
    put_u64(out, n as u64);
    let ghost base = out@;
    let mut i: usize = 0;
    while i < n
        invariant
            n == rows@.len(),
            i <= n,
            out@ == base + enc_lb_rows(entry_views(rows@).take(i as int)),
            forall|k: int| 0 <= k < i ==> str_fits((#[trigger] entry_views(rows@)[k]).user),
        decreases n - i,
    {
        let row = &rows[i];
        put_entry(out, row);
        proof {
            let views = entry_views(rows@);
            assert(views.take(i as int).push(views[i as int]) =~= views.take(i + 1));
            lemma_enc_lb_rows_push(views.take(i as int), views[i as int]);
        }
        i += 1;
    }
    proof {
        assert(entry_views(rows@).take(n as int) =~= entry_views(rows@));
        assert(final(out)@ =~= old(out)@ + enc_lb_list(entry_views(rows@)));
    }
}

fn get_user_list(b: &[u8], pos: usize) -> (r: Option<(Vec<UserStatusEntry>, usize)>)
    ensures
        dec_user_list(b@, pos as int) matches Some((v, j))
            ==> r matches Some((rv, rj)) && user_views(rv@) == v && rj == j
                && wf_user_rows(user_views(rv@)),
        dec_user_list(b@, pos as int) is None ==> r is None,
{
    proof { lemma_slice_len_bound(b); }
    match get_u64(b, pos) {
        None => None,
        Some((n, j0)) => {
            proof {
                let d = dec_u64(b@, pos as int);
                assert(d is Some);
                assert(d->Some_0.1 == j0 as int && d->Some_0.0 == n);
            }
            let mut rows: Vec<UserStatusEntry> = Vec::new();
            let mut pos2 = j0;
            let mut k: u64 = 0;
            while k < n
                invariant
                    dec_u64(b@, pos as int) == Some((n, j0 as int)),
                    k <= n,
                    pos2 <= b@.len() <= usize::MAX,
                    user_views(rows@).len() == k,
                    forall|q: int| 0 <= q < k ==> wf_user_entry(#[trigger] user_views(rows@)[q]),
                    dec_user_rows(b@, j0 as int, n as int) == (
                        match dec_user_rows(b@, pos2 as int, n - k) {
                            None => None::<(Seq<UserStatusEntryV>, int)>,
                            Some((rest, end)) => Some((user_views(rows@) + rest, end)),
                        }),
                decreases n - k,
            {
                let ghost views_before = user_views(rows@);
                match get_str(b, pos2) {
                    None => {
                        proof {
                            assert(dec_user_entry(b@, pos2 as int) is None);
                            assert(dec_user_rows(b@, pos2 as int, n - k) is None);
                        }
                        return None;
                    },
                    Some((user, p1)) => {
                        match get_status(b, p1) {
                            None => {
                                proof {
                                    assert(dec_user_entry(b@, pos2 as int) is None);
                                    assert(dec_user_rows(b@, pos2 as int, n - k) is None);
                                }
                                return None;
                            },
                            Some((status, p2)) => {
                                let row = UserStatusEntry { user, status };
                                proof {
                                    assert(dec_user_entry(b@, pos2 as int)
                                        == Some((row@, p2 as int)));
                                    assert(user_views(rows@.push(row))
                                        =~= views_before.push(row@));
                                }
                                let ghost rowv = row@;
                                rows.push(row);
                                pos2 = p2;
                                proof {
                                    if dec_user_rows(b@, pos2 as int, n - k - 1) is Some {
                                        let (rest, end) =
                                            dec_user_rows(b@, pos2 as int, n - k - 1)->Some_0;
                                        assert(views_before + (seq![rowv] + rest)
                                            =~= user_views(rows@) + rest);
                                    }
                                }
                                k += 1;
                            },
                        }
                    },
                }
            }
            proof {
                assert(dec_user_rows(b@, pos2 as int, 0) == Some(
                    (Seq::<UserStatusEntryV>::empty(), pos2 as int)));
                assert(user_views(rows@) + Seq::<UserStatusEntryV>::empty()
                    =~= user_views(rows@));
            }
            Some((rows, pos2))
        },
    }
}

fn get_lb_list(b: &[u8], pos: usize) -> (r: Option<(Vec<LeaderboardEntry>, usize)>)
    ensures
        dec_lb_list(b@, pos as int) matches Some((v, j))
            ==> r matches Some((rv, rj)) && entry_views(rv@) == v && rj == j
                && wf_lb_rows(entry_views(rv@)),
        dec_lb_list(b@, pos as int) is None ==> r is None,
{
    proof { lemma_slice_len_bound(b); }
    match get_u64(b, pos) {
        None => None,
        Some((n, j0)) => {
            proof {
                let d = dec_u64(b@, pos as int);
                assert(d is Some);
                assert(d->Some_0.1 == j0 as int && d->Some_0.0 == n);
            }
            let mut rows: Vec<LeaderboardEntry> = Vec::new();
            let mut pos2 = j0;
            let mut k: u64 = 0;
            while k < n
                invariant
                    dec_u64(b@, pos as int) == Some((n, j0 as int)),
                    k <= n,
                    pos2 <= b@.len() <= usize::MAX,
                    entry_views(rows@).len() == k,
                    forall|q: int| 0 <= q < k
                        ==> str_fits((#[trigger] entry_views(rows@)[q]).user),
                    dec_lb_rows(b@, j0 as int, n as int) == (
                        match dec_lb_rows(b@, pos2 as int, n - k) {
                            None => None::<(Seq<LeaderboardEntryV>, int)>,
                            Some((rest, end)) => Some((entry_views(rows@) + rest, end)),
                        }),
                decreases n - k,
            {
                let ghost views_before = entry_views(rows@);
                match get_entry(b, pos2) {
                    None => {
                        proof {
                            assert(dec_lb_rows(b@, pos2 as int, n - k) is None);
                        }
                        return None;
                    },
                    Some((row, p2)) => {
                        proof {
                            assert(entry_views(rows@.push(row)) =~= views_before.push(row@));
                        }
                        let ghost rowv = row@;
                        rows.push(row);
                        pos2 = p2;
                        proof {
                            if dec_lb_rows(b@, pos2 as int, n - k - 1) is Some {
                                let (rest, end) =
                                    dec_lb_rows(b@, pos2 as int, n - k - 1)->Some_0;
                                assert(views_before + (seq![rowv] + rest)
                                    =~= entry_views(rows@) + rest);
                            }
                        }
                        k += 1;
                    },
                }
            }
            proof {
                assert(dec_lb_rows(b@, pos2 as int, 0) == Some(
                    (Seq::<LeaderboardEntryV>::empty(), pos2 as int)));
                assert(entry_views(rows@) + Seq::<LeaderboardEntryV>::empty()
                    =~= entry_views(rows@));
            }
            Some((rows, pos2))
        },
    }
}

// ---------------------------------------------------------------------------
// The reply message codec
// ---------------------------------------------------------------------------

pub open spec fn wf_reply(v: MessageV) -> bool {
    match v {
        MessageV::ConnectedUsersResponse(rows) => wf_user_rows(rows),
        MessageV::LeaderboardResponse(rows) => wf_lb_rows(rows),
        _ => true,
    }
}

pub open spec fn enc_reply(v: MessageV) -> Seq<u8> {
    match v {
        MessageV::Heartbeat => enc_u8(0),
        MessageV::ConnectResponse => enc_u8(1),
        MessageV::CreateUserResponse(r) => enc_u8(2) + enc_u8(
            if r == CreateUserResponse::Accepted { 0 } else { 1 },
        ),
        MessageV::LoginResponse(r) => enc_u8(3) + enc_u8(
            if r == LoginResponse::Accepted { 0 } else { 1 },
        ),
        MessageV::ChangePasswordResponse(r) => enc_u8(4) + enc_u8(
            if r == ChangePasswordResponse::Accepted { 0 } else { 1 },
        ),
        MessageV::LogoutResponse => enc_u8(5),
        MessageV::CreateGameResponse(r) => enc_u8(6) + enc_u8(
            if r == CreateGameResponse::Accepted { 0 } else { 1 },
        ),
        MessageV::JoinGameResponse(r) => match r {
            JoinGameResponse::Accepted(a) => enc_u8(7) + enc_u8(0) + enc_addr(a),
            JoinGameResponse::Rejected => enc_u8(7) + enc_u8(1),
        },
        MessageV::ConnectedUsersResponse(rows) => enc_u8(8) + enc_user_list(rows),
        MessageV::LeaderboardResponse(rows) => enc_u8(9) + enc_lb_list(rows),
        MessageV::NotConnected => enc_u8(10),
    }
}

pub open spec fn dec_reply(b: Seq<u8>, i: int) -> Option<(MessageV, int)> {
    match dec_u8(b, i) {
        None => None,
        Some((t, j)) => {
            if t == 0 {
                Some((MessageV::Heartbeat, j))
            } else if t == 1 {
                Some((MessageV::ConnectResponse, j))
            } else if t == 2 {
                match dec_u8(b, j) {
                    None => None,
                    Some((o, k)) => {
                        if o == 0 {
                            Some((MessageV::CreateUserResponse(CreateUserResponse::Accepted), k))
                        } else if o == 1 {
                            Some((MessageV::CreateUserResponse(CreateUserResponse::Rejected), k))
                        } else {
                            None
                        }
                    },
                }
            } else if t == 3 {
                match dec_u8(b, j) {
                    None => None,
                    Some((o, k)) => {
                        if o == 0 {
                            Some((MessageV::LoginResponse(LoginResponse::Accepted), k))
                        } else if o == 1 {
                            Some((MessageV::LoginResponse(LoginResponse::Rejected), k))
                        } else {
                            None
                        }
                    },
                }
            } else if t == 4 {
                match dec_u8(b, j) {
                    None => None,
                    Some((o, k)) => {
                        if o == 0 {
                            Some((MessageV::ChangePasswordResponse(ChangePasswordResponse::Accepted), k))
                        } else if o == 1 {
                            Some((MessageV::ChangePasswordResponse(ChangePasswordResponse::Rejected), k))
                        } else {
                            None
                        }
                    },
                }
            } else if t == 5 {
                Some((MessageV::LogoutResponse, j))
            } else if t == 6 {
                match dec_u8(b, j) {
                    None => None,
                    Some((o, k)) => {
                        if o == 0 {
                            Some((MessageV::CreateGameResponse(CreateGameResponse::Accepted), k))
                        } else if o == 1 {
                            Some((MessageV::CreateGameResponse(CreateGameResponse::Rejected), k))
                        } else {
                            None
                        }
                    },
                }
            } else if t == 7 {
                match dec_u8(b, j) {
                    None => None,
                    Some((o, k)) => {
                        if o == 0 {
                            match dec_addr(b, k) {
                                None => None,
                                Some((a, l)) => Some((
                                    MessageV::JoinGameResponse(JoinGameResponse::Accepted(a)),
                                    l,
                                )),
                            }
                        } else if o == 1 {
                            Some((MessageV::JoinGameResponse(JoinGameResponse::Rejected), k))
                        } else {
                            None
                        }
                    },
                }
            } else if t == 8 {
                match dec_user_list(b, j) {
                    None => None,
                    Some((rows, k)) => Some((MessageV::ConnectedUsersResponse(rows), k)),
                }
            } else if t == 9 {
                match dec_lb_list(b, j) {
                    None => None,
                    Some((rows, k)) => Some((MessageV::LeaderboardResponse(rows), k)),
                }
            } else if t == 10 {
                Some((MessageV::NotConnected, j))
            } else {
                None
            }
        },
    }
}

#[verifier::rlimit(60)]
#[verifier::spinoff_prover]
pub proof fn lemma_dec_reply(pre: Seq<u8>, v: MessageV, suf: Seq<u8>)
    requires
        wf_reply(v),
    ensures
        dec_reply(pre + enc_reply(v) + suf, pre.len() as int)
            == Some((v, pre.len() + enc_reply(v).len() as int)),
{
    match v {
        MessageV::Heartbeat => {
            assert(pre + enc_reply(v) + suf =~= pre + enc_u8(0) + suf);
            lemma_dec_u8(pre, 0, suf);
        },
        MessageV::ConnectResponse => {
            assert(pre + enc_reply(v) + suf =~= pre + enc_u8(1) + suf);
            lemma_dec_u8(pre, 1, suf);
        },
        MessageV::CreateUserResponse(r) => {
            let o: u8 = if r == CreateUserResponse::Accepted { 0 } else { 1 };
            assert(pre + enc_reply(v) + suf =~= pre + enc_u8(2) + (enc_u8(o) + suf));
            lemma_dec_u8(pre, 2, enc_u8(o) + suf);
            assert(pre + enc_u8(2) + (enc_u8(o) + suf) =~= (pre + enc_u8(2)) + enc_u8(o) + suf);
            lemma_dec_u8(pre + enc_u8(2), o, suf);
        },
        MessageV::LoginResponse(r) => {
            let o: u8 = if r == LoginResponse::Accepted { 0 } else { 1 };
            assert(pre + enc_reply(v) + suf =~= pre + enc_u8(3) + (enc_u8(o) + suf));
            lemma_dec_u8(pre, 3, enc_u8(o) + suf);
            assert(pre + enc_u8(3) + (enc_u8(o) + suf) =~= (pre + enc_u8(3)) + enc_u8(o) + suf);
            lemma_dec_u8(pre + enc_u8(3), o, suf);
        },
        MessageV::ChangePasswordResponse(r) => {
            let o: u8 = if r == ChangePasswordResponse::Accepted { 0 } else { 1 };
            assert(pre + enc_reply(v) + suf =~= pre + enc_u8(4) + (enc_u8(o) + suf));
            lemma_dec_u8(pre, 4, enc_u8(o) + suf);
            assert(pre + enc_u8(4) + (enc_u8(o) + suf) =~= (pre + enc_u8(4)) + enc_u8(o) + suf);
            lemma_dec_u8(pre + enc_u8(4), o, suf);
        },
        MessageV::LogoutResponse => {
            assert(pre + enc_reply(v) + suf =~= pre + enc_u8(5) + suf);
            lemma_dec_u8(pre, 5, suf);
        },
        MessageV::CreateGameResponse(r) => {
            let o: u8 = if r == CreateGameResponse::Accepted { 0 } else { 1 };
            assert(pre + enc_reply(v) + suf =~= pre + enc_u8(6) + (enc_u8(o) + suf));
            lemma_dec_u8(pre, 6, enc_u8(o) + suf);
            assert(pre + enc_u8(6) + (enc_u8(o) + suf) =~= (pre + enc_u8(6)) + enc_u8(o) + suf);
            lemma_dec_u8(pre + enc_u8(6), o, suf);
        },
        MessageV::JoinGameResponse(r) => match r {
            JoinGameResponse::Accepted(a) => {
                assert(pre + enc_reply(v) + suf
                    =~= pre + enc_u8(7) + (enc_u8(0) + (enc_addr(a) + suf)));
                lemma_dec_u8(pre, 7, enc_u8(0) + (enc_addr(a) + suf));
                assert(pre + enc_u8(7) + (enc_u8(0) + (enc_addr(a) + suf))
                    =~= (pre + enc_u8(7)) + enc_u8(0) + (enc_addr(a) + suf));
                lemma_dec_u8(pre + enc_u8(7), 0, enc_addr(a) + suf);
                assert((pre + enc_u8(7)) + enc_u8(0) + (enc_addr(a) + suf)
                    =~= ((pre + enc_u8(7)) + enc_u8(0)) + enc_addr(a) + suf);
                lemma_dec_addr((pre + enc_u8(7)) + enc_u8(0), a, suf);
            },
            JoinGameResponse::Rejected => {
                assert(pre + enc_reply(v) + suf =~= pre + enc_u8(7) + (enc_u8(1) + suf));
                lemma_dec_u8(pre, 7, enc_u8(1) + suf);
                assert(pre + enc_u8(7) + (enc_u8(1) + suf)
                    =~= (pre + enc_u8(7)) + enc_u8(1) + suf);
                lemma_dec_u8(pre + enc_u8(7), 1, suf);
            },
        },
        MessageV::ConnectedUsersResponse(rows) => {
            assert(pre + enc_reply(v) + suf =~= pre + enc_u8(8) + (enc_user_list(rows) + suf));
            lemma_dec_u8(pre, 8, enc_user_list(rows) + suf);
            assert(pre + enc_u8(8) + (enc_user_list(rows) + suf)
                =~= (pre + enc_u8(8)) + enc_user_list(rows) + suf);
            lemma_dec_user_list(pre + enc_u8(8), rows, suf);
        },
        MessageV::LeaderboardResponse(rows) => {
            assert(pre + enc_reply(v) + suf =~= pre + enc_u8(9) + (enc_lb_list(rows) + suf));
            lemma_dec_u8(pre, 9, enc_lb_list(rows) + suf);
            assert(pre + enc_u8(9) + (enc_lb_list(rows) + suf)
                =~= (pre + enc_u8(9)) + enc_lb_list(rows) + suf);
            lemma_dec_lb_list(pre + enc_u8(9), rows, suf);
        },
        MessageV::NotConnected => {
            assert(pre + enc_reply(v) + suf =~= pre + enc_u8(10) + suf);
            lemma_dec_u8(pre, 10, suf);
        },
    }
}

impl PacmanMessage for Message {
    open spec fn wf(&self) -> bool {
        wf_reply(self@)
    }

    open spec fn spec_to_bytes(v: MessageV) -> Seq<u8> {
        enc_reply(v)
    }

    open spec fn spec_from_bytes(b: Seq<u8>) -> Option<MessageV> {
        match dec_reply(b, 0) {
            None => None,
            Some((v, j)) => if j == b.len() {
                Some(v)
            } else {
                None
            },
        }
    }

    fn to_bytes(&self) -> (r: Vec<u8>)
        ensures
            r@ == enc_reply(self@),
    {
        let mut out: Vec<u8> = Vec::new();
        match self {
            Message::Heartbeat => put_u8(&mut out, 0),
            Message::ConnectResponse => put_u8(&mut out, 1),
            Message::CreateUserResponse(r) => {
                put_u8(&mut out, 2);
                put_u8(&mut out, if let CreateUserResponse::Accepted = r { 0 } else { 1 });
            },
            Message::LoginResponse(r) => {
                put_u8(&mut out, 3);
                put_u8(&mut out, if let LoginResponse::Accepted = r { 0 } else { 1 });
            },
            Message::ChangePasswordResponse(r) => {
                put_u8(&mut out, 4);
                put_u8(&mut out, if let ChangePasswordResponse::Accepted = r { 0 } else { 1 });
            },
            Message::LogoutResponse => put_u8(&mut out, 5),
            Message::CreateGameResponse(r) => {
                put_u8(&mut out, 6);
                put_u8(&mut out, if let CreateGameResponse::Accepted = r { 0 } else { 1 });
            },
            Message::JoinGameResponse(r) => {
                put_u8(&mut out, 7);
                match r {
                    JoinGameResponse::Accepted(a) => {
                        put_u8(&mut out, 0);
                        put_addr(&mut out, *a);
                    },
                    JoinGameResponse::Rejected => put_u8(&mut out, 1),
                }
            },
            Message::ConnectedUsersResponse(r) => {
                put_u8(&mut out, 8);
                put_user_list(&mut out, &r.users);
            },
            Message::LeaderboardResponse(r) => {
                put_u8(&mut out, 9);
                put_lb_list(&mut out, &r.top10);
            },
            Message::NotConnected => put_u8(&mut out, 10),
        }
        proof {
            assert(out@ =~= enc_reply(self@));
        }
        out
    }

    fn from_bytes(b: &[u8]) -> (r: Option<Message>)
        ensures
            match (r, Self::spec_from_bytes(b@)) {
                (Some(m), Some(v)) => m@ == v && m.wf(),
                (None, None) => true,
                _ => false,
            },
    {
        proof { lemma_slice_len_bound(b); }
        let decoded: Option<(Message, usize)> = match get_u8(b, 0) {
            None => None,
            Some((t, j)) => {
                if t == 0 {
                    Some((Message::Heartbeat, j))
                } else if t == 1 {
                    Some((Message::ConnectResponse, j))
                } else if t == 2 {
                    match get_u8(b, j) {
                        None => None,
                        Some((o, k)) => {
                            if o == 0 {
                                Some((Message::CreateUserResponse(CreateUserResponse::Accepted), k))
                            } else if o == 1 {
                                Some((Message::CreateUserResponse(CreateUserResponse::Rejected), k))
                            } else {
                                None
                            }
                        },
                    }
                } else if t == 3 {
                    match get_u8(b, j) {
                        None => None,
                        Some((o, k)) => {
                            if o == 0 {
                                Some((Message::LoginResponse(LoginResponse::Accepted), k))
                            } else if o == 1 {
                                Some((Message::LoginResponse(LoginResponse::Rejected), k))
                            } else {
                                None
                            }
                        },
                    }
                } else if t == 4 {
                    match get_u8(b, j) {
                        None => None,
                        Some((o, k)) => {
                            if o == 0 {
                                Some((
                                    Message::ChangePasswordResponse(ChangePasswordResponse::Accepted),
                                    k,
                                ))
                            } else if o == 1 {
                                Some((
                                    Message::ChangePasswordResponse(ChangePasswordResponse::Rejected),
                                    k,
                                ))
                            } else {
                                None
                            }
                        },
                    }
                } else if t == 5 {
                    Some((Message::LogoutResponse, j))
                } else if t == 6 {
                    match get_u8(b, j) {
                        None => None,
                        Some((o, k)) => {
                            if o == 0 {
                                Some((Message::CreateGameResponse(CreateGameResponse::Accepted), k))
                            } else if o == 1 {
                                Some((Message::CreateGameResponse(CreateGameResponse::Rejected), k))
                            } else {
                                None
                            }
                        },
                    }
                } else if t == 7 {
                    match get_u8(b, j) {
                        None => None,
                        Some((o, k)) => {
                            if o == 0 {
                                match get_addr(b, k) {
                                    None => None,
                                    Some((a, l)) => Some((
                                        Message::JoinGameResponse(JoinGameResponse::Accepted(a)),
                                        l,
                                    )),
                                }
                            } else if o == 1 {
                                Some((Message::JoinGameResponse(JoinGameResponse::Rejected), k))
                            } else {
                                None
                            }
                        },
                    }
                } else if t == 8 {
                    match get_user_list(b, j) {
                        None => None,
                        Some((users, k)) => Some((
                            Message::ConnectedUsersResponse(ConnectedUsersResponse { users }),
                            k,
                        )),
                    }
                } else if t == 9 {
                    match get_lb_list(b, j) {
                        None => None,
                        Some((top10, k)) => Some((
                            Message::LeaderboardResponse(LeaderboardResponse { top10 }),
                            k,
                        )),
                    }
                } else if t == 10 {
                    Some((Message::NotConnected, j))
                } else {
                    None
                }
            },
        };
        match decoded {
            None => None,
            Some((m, k)) => {
                if k == b.len() {
                    Some(m)
                } else {
                    None
                }
            },
        }
    }

    proof fn lemma_round_trip(&self)
        ensures
            Self::spec_from_bytes(Self::spec_to_bytes(self@)) == Some(self@),
    {
        let v = self@;
        let e = Seq::<u8>::empty();
        lemma_dec_reply(e, v, e);
        assert(e + enc_reply(v) + e =~= enc_reply(v));
    }
}

} // verus!
