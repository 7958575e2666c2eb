//! The server's request router: username policy, the leaderboard rules,
//! and the dispatch from one inbound request to the table mutation and the
//! reply it owes.
//!
//! The credential store itself is a file-backed collaborator outside this
//! library. The router therefore works in two steps: `db_query_for` names
//! the credential operation a request needs, the caller performs it, and
//! `handle_request` consumes its answer together with the request.

use vstd::prelude::*;
use crate::{Connection, LeaderboardEntry, LeaderboardEntryV, PacmanMessage};
use crate::codec::check_str_fits;
use crate::client_server::{MessageEnum, MessageEnumV};
use crate::server_client;
use crate::server_client::{
    ConnectedUsersResponse, LeaderboardResponse, CreateUserResponse, LoginResponse,
    ChangePasswordResponse, CreateGameResponse, JoinGameResponse,
    UserStatusEntryV, user_views, entry_views, wf_user_rows, wf_lb_rows,
};
use crate::table::{
    ConnectionTable, TableV, user_status_ok,
    spec_insert, spec_set_heartbeat, spec_login, spec_logout, spec_kick, spec_remove,
    spec_create_game, spec_join_game,
};

verus! {

// ---------------------------------------------------------------------------
// Username policy
// ---------------------------------------------------------------------------

/// Whether a character counts as whitespace; the result depends on the
/// character alone.
pub uninterp spec fn is_whitespace_char(c: char) -> bool;

/// Relies on `char::is_whitespace`: whether the character has the Unicode
/// whitespace property.
pub assume_specification[ char::is_whitespace ](c: char) -> (r: bool)
    ensures
        r == is_whitespace_char(c),
;

/// A username is acceptable when it holds no whitespace and at most
/// twenty characters.
pub open spec fn spec_username_valid(u: Seq<char>) -> bool {
    u.len() <= 20 && forall|i: int| 0 <= i < u.len() ==> !is_whitespace_char(#[trigger] u[i])
}

/// Checks the username policy: no whitespace, at most twenty characters.
pub fn username_valid(user: &str) -> (r: bool)
    ensures
        r == spec_username_valid(user@),
{
    let n = user.unicode_len();
    if n > 20 {
        return false;
    }
    let mut i: usize = 0;
    while i < n
        invariant
            n == user@.len(),
            i <= n,
            forall|j: int| 0 <= j < i ==> !is_whitespace_char(#[trigger] user@[j]),
        decreases n - i,
    {
        let c = user.get_char(i);
        if c.is_whitespace() {
            return false;
        }
        i += 1;
    }
    true
}

// ---------------------------------------------------------------------------
// The leaderboard rules
// ---------------------------------------------------------------------------

/// The stored leaderboard: at most ten rows, highest score first.
pub struct Leaderboard {
    entries: Vec<LeaderboardEntry>,
}

/// Rows sorted by score, descending, at most ten of them, every username
/// fit for the wire.
pub open spec fn lb_wf(s: Seq<LeaderboardEntryV>) -> bool {
    &&& s.len() <= 10
    &&& forall|i: int, j: int| 0 <= i < j < s.len()
        ==> (#[trigger] s[i]).score >= (#[trigger] s[j]).score
    &&& wf_lb_rows(s)
}

/// Where a new score lands: before the first strictly smaller score, after
/// every equal one.
pub open spec fn spec_insert_pos(s: Seq<LeaderboardEntryV>, score: u64) -> int
    decreases s.len(),
{
    if s.len() == 0 {
        0
    } else if s[0].score < score {
        0
    } else {
        1 + spec_insert_pos(s.drop_first(), score)
    }
}

/// The leaderboard after taking one row in: the row slots in by score and
/// the list is cut back to ten rows.
pub open spec fn spec_add_entry(s: Seq<LeaderboardEntryV>, e: LeaderboardEntryV)
    -> Seq<LeaderboardEntryV> {
    let t = s.insert(spec_insert_pos(s, e.score), e);
    if t.len() <= 10 {
        t
    } else {
        t.take(10)
    }
}

proof fn lemma_insert_pos_bounds(s: Seq<LeaderboardEntryV>, score: u64)
    ensures
        0 <= spec_insert_pos(s, score) <= s.len(),
        forall|j: int| 0 <= j < spec_insert_pos(s, score)
            ==> (#[trigger] s[j]).score >= score,
        spec_insert_pos(s, score) < s.len() ==> s[spec_insert_pos(s, score)].score < score,
    decreases s.len(),
{
    if s.len() > 0 && s[0].score >= score {
        lemma_insert_pos_bounds(s.drop_first(), score);
        assert forall|j: int| 0 <= j < spec_insert_pos(s, score)
            implies (#[trigger] s[j]).score >= score by {
            if j > 0 {
                assert(s.drop_first()[j - 1] == s[j]);
            }
        }
    }
}

impl View for Leaderboard {
    type V = Seq<LeaderboardEntryV>;

    closed spec fn view(&self) -> Seq<LeaderboardEntryV> {
        entry_views(self.entries@)
    }
}

impl Leaderboard {
    /// An empty leaderboard.
    pub fn new() -> (lb: Leaderboard)
        ensures
            lb@ == Seq::<LeaderboardEntryV>::empty(),
            lb_wf(lb@),
    {
        let lb = Leaderboard { entries: Vec::new() };
        proof {
            assert(lb@ =~= Seq::<LeaderboardEntryV>::empty());
        }
        lb
    }

    /// The stored rows, highest score first.
    pub fn get_leaderboard(&self) -> (r: &Vec<LeaderboardEntry>)
        ensures
            entry_views(r@) == self@,
    {
        &self.entries
    }

    /// Takes one row in, keeping the ten best scores in descending order.
    pub fn add_leaderboard_entry(&mut self, entry: LeaderboardEntry)
        requires
            lb_wf(old(self)@),
        ensures
            lb_wf(final(self)@),
            final(self)@ == spec_add_entry(old(self)@, entry@),
    {
        check_str_fits(entry.user.as_str());
        let ghost s = self@;
        let ghost pos_spec = spec_insert_pos(s, entry.score);
        proof {
            lemma_insert_pos_bounds(s, entry.score);
        }
        let mut pos: usize = 0;
        while pos < self.entries.len() && self.entries[pos].score >= entry.score
            invariant
                s == entry_views(self.entries@),
                pos_spec == spec_insert_pos(s, entry@.score),
                pos <= self.entries@.len(),
                forall|j: int| 0 <= j < pos ==> (#[trigger] s[j]).score >= entry@.score,
                pos <= pos_spec,
            decreases self.entries@.len() - pos,
        {
            proof {
                lemma_insert_pos_bounds(s, entry.score);
            }
            pos += 1;
        }
        proof {
            if pos < pos_spec {
                assert(s[pos as int].score >= entry@.score);
            }
            assert(pos == pos_spec);
        }
        self.entries.insert(pos, entry);
        if self.entries.len() > 10 {
            self.entries.truncate(10);
        }
        proof {
            let t = s.insert(pos as int, entry@);
            if t.len() <= 10 {
                assert(entry_views(self.entries@) =~= t);
            } else {
                assert(entry_views(self.entries@) =~= t.take(10));
            }
            assert forall|i: int, j: int| 0 <= i < j < final(self)@.len()
                implies (#[trigger] final(self)@[i]).score
                    >= (#[trigger] final(self)@[j]).score by {
                if i < pos as int && j < pos as int {
                } else if i < pos as int && j == pos as int {
                } else if i == pos as int {
                    assert(t[j] == s[j - 1]);
                    if j - 1 > pos as int - 1 + 1 {
                    }
                } else {
                }
            }
        }
    }
}

// ---------------------------------------------------------------------------
// The credential queries a request needs
// ---------------------------------------------------------------------------

/// The one credential-store operation a request calls for, if any.
pub enum DbQuery {
    CreateUser { user: String, passwd: String },
    VerifyLogin { user: String, passwd: String },
    ChangePassword { user: String, old_passwd: String, new_passwd: String },
}

/// The mathematical value of a credential query.
pub enum DbQueryV {
    CreateUser { user: Seq<char>, passwd: Seq<char> },
    VerifyLogin { user: Seq<char>, passwd: Seq<char> },
    ChangePassword { user: Seq<char>, old_passwd: Seq<char>, new_passwd: Seq<char> },
}

impl View for DbQuery {
    type V = DbQueryV;

    open spec fn view(&self) -> DbQueryV {
        match self {
            DbQuery::CreateUser { user, passwd } => DbQueryV::CreateUser {
                user: user@,
                passwd: passwd@,
            },
            DbQuery::VerifyLogin { user, passwd } => DbQueryV::VerifyLogin {
                user: user@,
                passwd: passwd@,
            },
            DbQuery::ChangePassword { user, old_passwd, new_passwd } =>
                DbQueryV::ChangePassword {
                    user: user@,
                    old_passwd: old_passwd@,
                    new_passwd: new_passwd@,
                },
        }
    }
}

/// The credential store's answer to a query.
#[derive(Clone, Copy, Debug, PartialEq, Eq, Structural)]
pub enum DbAnswer {
    Created(bool),
    Verified(bool),
    Changed(bool),
}

pub open spec fn reply_view(r: Option<server_client::Message>)
    -> Option<server_client::MessageV> {
    match r {
        Some(m) => Some(m@),
        None => None,
    }
}

pub open spec fn query_view(r: Option<DbQuery>) -> Option<DbQueryV> {
    match r {
        Some(q) => Some(q@),
        None => None,
    }
}

/// Which credential query the request calls for, under the table's state:
/// user creation only for an acceptable username, password change only
/// for a logged-in session.
pub open spec fn spec_db_query_for(v: TableV, c: Connection, m: MessageEnumV)
    -> Option<DbQueryV> {
    match m {
        MessageEnumV::CreateUserRequest { user, passwd } => {
            if spec_username_valid(user) {
                Some(DbQueryV::CreateUser { user, passwd })
            } else {
                None
            }
        },
        MessageEnumV::LoginRequest { user, passwd } =>
            Some(DbQueryV::VerifyLogin { user, passwd }),
        MessageEnumV::ChangePasswordRequest { old_passwd, new_passwd } => {
            if v.conns.contains_key(c) {
                match v.conns[c].user {
                    Some(u) => Some(DbQueryV::ChangePassword {
                        user: u,
                        old_passwd,
                        new_passwd,
                    }),
                    None => None,
                }
            } else {
                None
            }
        },
        _ => None,
    }
}

/// Names the credential operation the request needs; the caller performs
/// it and hands the answer to `handle_request`.
pub fn db_query_for(table: &ConnectionTable, conn: &Connection, msg: &MessageEnum)
    -> (r: Option<DbQuery>)
    requires
        table.well_formed(),
    ensures
        query_view(r) == spec_db_query_for(table@, *conn, msg@),
{
    match msg {
        MessageEnum::CreateUserRequest(req) => {
            if username_valid(req.user.as_str()) {
                Some(DbQuery::CreateUser {
                    user: req.user.clone(),
                    passwd: req.passwd.clone(),
                })
            } else {
                None
            }
        },
        MessageEnum::LoginRequest(req) => Some(DbQuery::VerifyLogin {
            user: req.user.clone(),
            passwd: req.passwd.clone(),
        }),
        MessageEnum::ChangePasswordRequest(req) => match table.user_of(conn) {
            Some(u) => Some(DbQuery::ChangePassword {
                user: u,
                old_passwd: req.old_passwd.clone(),
                new_passwd: req.new_passwd.clone(),
            }),
            None => None,
        },
        _ => None,
    }
}

/// The answer fits the query: a creation answer for a creation query,
/// and so on; no answer exactly when no query was needed.
pub open spec fn answer_ok(q: Option<DbQueryV>, a: Option<DbAnswer>) -> bool {
    match (q, a) {
        (None, None) => true,
        (Some(DbQueryV::CreateUser { .. }), Some(DbAnswer::Created(_))) => true,
        (Some(DbQueryV::VerifyLogin { .. }), Some(DbAnswer::Verified(_))) => true,
        (Some(DbQueryV::ChangePassword { .. }), Some(DbAnswer::Changed(_))) => true,
        _ => false,
    }
}


/// A field-by-field copy of the stored rows.
fn clone_entries(v: &Vec<LeaderboardEntry>) -> (r: Vec<LeaderboardEntry>)
    ensures
        entry_views(r@) == entry_views(v@),
{
    let mut r: Vec<LeaderboardEntry> = Vec::new();
    let mut i: usize = 0;
    while i < v.len()
        invariant
            i <= v@.len(),
            r@.len() == i,
            forall|j: int| 0 <= j < i ==> (#[trigger] r@[j])@ == v@[j]@,
        decreases v@.len() - i,
    {
        r.push(LeaderboardEntry { score: v[i].score, user: v[i].user.clone() });
        i += 1;
    }
    proof {
        assert(entry_views(r@) =~= entry_views(v@));
    }
    r
}

// ---------------------------------------------------------------------------
// Dispatch
// ---------------------------------------------------------------------------

/// How the table changes under one request.
pub open spec fn spec_table_effect(
    v: TableV,
    c: Connection,
    m: MessageEnumV,
    now: u64,
    a: Option<DbAnswer>,
) -> TableV {
    match m {
        MessageEnumV::ConnectRequest => spec_insert(v, c, now).0,
        MessageEnumV::Heartbeat => spec_set_heartbeat(v, c, now),
        MessageEnumV::Disconnect => spec_remove(v, c).0,
        MessageEnumV::LoginRequest { user, .. } => {
            if a == Some(DbAnswer::Verified(true)) {
                spec_login(v, c, user).0
            } else {
                v
            }
        },
        MessageEnumV::LogoutRequest => spec_logout(v, c).0,
        MessageEnumV::QuitGameRequest => spec_kick(v, c).0,
        MessageEnumV::CreateGameRequest { listener_addr } =>
            spec_create_game(v, c, listener_addr).0,
        MessageEnumV::JoinGameRequest { pacman } => spec_join_game(v, c, pacman).0,
        _ => v,
    }
}

/// How the leaderboard changes under one request.
pub open spec fn spec_lb_effect(
    lb: Seq<LeaderboardEntryV>,
    m: MessageEnumV,
) -> Seq<LeaderboardEntryV> {
    match m {
        MessageEnumV::AddLeaderboardEntry(e) => spec_add_entry(lb, e),
        _ => lb,
    }
}

/// The reply one request owes, with the connected-users rows abstracted
/// as a parameter.
pub open spec fn spec_reply(
    v: TableV,
    lb: Seq<LeaderboardEntryV>,
    c: Connection,
    m: MessageEnumV,
    now: u64,
    a: Option<DbAnswer>,
    rows: Seq<UserStatusEntryV>,
) -> Option<server_client::MessageV> {
    match m {
        MessageEnumV::ConnectRequest => {
            if spec_insert(v, c, now).1 {
                Some(server_client::MessageV::ConnectResponse)
            } else {
                None
            }
        },
        MessageEnumV::Heartbeat => None,
        MessageEnumV::Disconnect => None,
        MessageEnumV::CreateUserRequest { .. } => Some(
            server_client::MessageV::CreateUserResponse(
                if a == Some(DbAnswer::Created(true)) {
                    CreateUserResponse::Accepted
                } else {
                    CreateUserResponse::Rejected
                },
            ),
        ),
        MessageEnumV::LoginRequest { user, .. } => Some(
            server_client::MessageV::LoginResponse(
                if a == Some(DbAnswer::Verified(true)) && spec_login(v, c, user).1 {
                    LoginResponse::Accepted
                } else {
                    LoginResponse::Rejected
                },
            ),
        ),
        MessageEnumV::ChangePasswordRequest { .. } => Some(
            server_client::MessageV::ChangePasswordResponse(
                if a == Some(DbAnswer::Changed(true)) {
                    ChangePasswordResponse::Accepted
                } else {
                    ChangePasswordResponse::Rejected
                },
            ),
        ),
        MessageEnumV::LogoutRequest => {
            if spec_logout(v, c).1 {
                Some(server_client::MessageV::LogoutResponse)
            } else {
                None
            }
        },
        MessageEnumV::QuitGameRequest => None,
        MessageEnumV::ConnectedUsersRequest => Some(
            server_client::MessageV::ConnectedUsersResponse(rows),
        ),
        MessageEnumV::CreateGameRequest { listener_addr } => Some(
            server_client::MessageV::CreateGameResponse(
                if spec_create_game(v, c, listener_addr).1 {
                    CreateGameResponse::Accepted
                } else {
                    CreateGameResponse::Rejected
                },
            ),
        ),
        MessageEnumV::JoinGameRequest { pacman } => Some(
            server_client::MessageV::JoinGameResponse(
                match spec_join_game(v, c, pacman).1 {
                    Some(addr) => JoinGameResponse::Accepted(addr),
                    None => JoinGameResponse::Rejected,
                },
            ),
        ),
        MessageEnumV::LeaderboardRequest => Some(
            server_client::MessageV::LeaderboardResponse(lb),
        ),
        MessageEnumV::AddLeaderboardEntry(_) => None,
    }
}

/// The connected-users rows are faithful to the table: every row correct,
/// every logged-in user listed, no user twice.
pub open spec fn rows_ok(rows: Seq<UserStatusEntryV>, v: TableV) -> bool {
    &&& forall|i: int| 0 <= i < rows.len() ==> user_status_ok(#[trigger] rows[i], v)
    &&& forall|u: Seq<char>| #[trigger] v.users.contains_key(u)
        ==> exists|i: int| 0 <= i < rows.len() && (#[trigger] rows[i]).user == u
    &&& forall|i: int, j: int| 0 <= i < j < rows.len()
        ==> (#[trigger] rows[i]).user != (#[trigger] rows[j]).user
}

/// Consumes one inbound request under the credential store's answer:
/// mutates the session table and the leaderboard as the request demands
/// and yields the reply owed to the sender, ready for the wire.
pub fn handle_request(
    table: &mut ConnectionTable,
    lb: &mut Leaderboard,
    conn: &Connection,
    msg: &MessageEnum,
    now: u64,
    answer: Option<DbAnswer>,
) -> (r: Option<server_client::Message>)
    requires
        old(table).well_formed(),
        lb_wf(old(lb)@),
        answer_ok(spec_db_query_for(old(table)@, *conn, msg@), answer),
    ensures
        final(table).well_formed(),
        lb_wf(final(lb)@),
        final(table)@ == spec_table_effect(old(table)@, *conn, msg@, now, answer),
        final(lb)@ == spec_lb_effect(old(lb)@, msg@),
        !(msg@ is ConnectedUsersRequest) ==> reply_view(r) == spec_reply(
            old(table)@, old(lb)@, *conn, msg@, now, answer,
            Seq::<UserStatusEntryV>::empty(),
        ),
        msg@ is ConnectedUsersRequest ==> (r matches Some(m)
            && m@ matches server_client::MessageV::ConnectedUsersResponse(rows)
            && rows_ok(rows, old(table)@)),
        r matches Some(m) ==> m.wf(),
{
    match msg {
        MessageEnum::ConnectRequest => {
            let ok = table.insert(conn, now);
            let r = if ok {
                Some(server_client::Message::ConnectResponse)
            } else {
                None
            };
            proof {
                assert(reply_view(r) == spec_reply(
                    old(table)@, old(lb)@, *conn, msg@, now, answer,
                    Seq::<UserStatusEntryV>::empty(),
                ));
            }
            r
        },
        MessageEnum::Heartbeat => {
            table.set_heartbeat(conn, now);
            proof {
                assert(reply_view(None::<server_client::Message>) == spec_reply(
                    old(table)@, old(lb)@, *conn, msg@, now, answer,
                    Seq::<UserStatusEntryV>::empty(),
                ));
            }
            None
        },
        MessageEnum::Disconnect => {
            let _ = table.remove(conn);
            proof {
                assert(reply_view(None::<server_client::Message>) == spec_reply(
                    old(table)@, old(lb)@, *conn, msg@, now, answer,
                    Seq::<UserStatusEntryV>::empty(),
                ));
            }
            None
        },
        MessageEnum::CreateUserRequest(_) => {
            let ok = match answer {
                Some(DbAnswer::Created(b)) => b,
                _ => false,
            };
            let r = Some(server_client::Message::CreateUserResponse(
                if ok { CreateUserResponse::Accepted } else { CreateUserResponse::Rejected },
            ));
            proof {
                assert(reply_view(r) == spec_reply(
                    old(table)@, old(lb)@, *conn, msg@, now, answer,
                    Seq::<UserStatusEntryV>::empty(),
                ));
            }
            r
        },
        MessageEnum::LoginRequest(req) => {
            let cred_ok = match answer {
                Some(DbAnswer::Verified(b)) => b,
                _ => false,
            };
            let ok = if cred_ok {
                table.login(conn, &req.user)
            } else {
                false
            };
            let r = Some(server_client::Message::LoginResponse(
                if ok { LoginResponse::Accepted } else { LoginResponse::Rejected },
            ));
            proof {
                assert(reply_view(r) == spec_reply(
                    old(table)@, old(lb)@, *conn, msg@, now, answer,
                    Seq::<UserStatusEntryV>::empty(),
                ));
            }
            r
        },
        MessageEnum::ChangePasswordRequest(_) => {
            let ok = match answer {
                Some(DbAnswer::Changed(b)) => b,
                _ => false,
            };
            let r = Some(server_client::Message::ChangePasswordResponse(
                if ok {
                    ChangePasswordResponse::Accepted
                } else {
                    ChangePasswordResponse::Rejected
                },
            ));
            proof {
                assert(reply_view(r) == spec_reply(
                    old(table)@, old(lb)@, *conn, msg@, now, answer,
                    Seq::<UserStatusEntryV>::empty(),
                ));
            }
            r
        },
        MessageEnum::LogoutRequest => {
            let ok = table.logout(conn);
            let r = if ok {
                Some(server_client::Message::LogoutResponse)
            } else {
                None
            };
            proof {
                assert(reply_view(r) == spec_reply(
                    old(table)@, old(lb)@, *conn, msg@, now, answer,
                    Seq::<UserStatusEntryV>::empty(),
                ));
            }
            r
        },
        MessageEnum::QuitGameRequest => {
            let _ = table.kick(conn);
            proof {
                assert(reply_view(None::<server_client::Message>) == spec_reply(
                    old(table)@, old(lb)@, *conn, msg@, now, answer,
                    Seq::<UserStatusEntryV>::empty(),
                ));
            }
            None
        },
        MessageEnum::ConnectedUsersRequest => {
            let users = table.user_statuses();
            let ghost uvs = users@;
            let ghost rows = user_views(users@);
            let r = Some(server_client::Message::ConnectedUsersResponse(
                ConnectedUsersResponse { users },
            ));
            proof {
                assert forall|i: int| 0 <= i < rows.len()
                    implies user_status_ok(#[trigger] rows[i], old(table)@) by {
                    assert(rows[i] == uvs[i]@);
                }
                assert forall|u: Seq<char>| #[trigger] old(table)@.users.contains_key(u)
                    implies exists|i: int| 0 <= i < rows.len()
                        && (#[trigger] rows[i]).user == u by {
                    let i = choose|i: int| 0 <= i < uvs.len()
                        && (#[trigger] uvs[i])@.user == u;
                    assert(rows[i].user == u);
                }
                assert forall|i: int, j: int| 0 <= i < j < rows.len()
                    implies (#[trigger] rows[i]).user != (#[trigger] rows[j]).user by {
                    assert(rows[i] == uvs[i]@ && rows[j] == uvs[j]@);
                }
                assert(rows_ok(rows, old(table)@));
            }
            r
        },
        MessageEnum::CreateGameRequest(req) => {
            let ok = table.create_game(conn, req.listener_addr);
            let r = Some(server_client::Message::CreateGameResponse(
                if ok { CreateGameResponse::Accepted } else { CreateGameResponse::Rejected },
            ));
            proof {
                assert(reply_view(r) == spec_reply(
                    old(table)@, old(lb)@, *conn, msg@, now, answer,
                    Seq::<UserStatusEntryV>::empty(),
                ));
            }
            r
        },
        MessageEnum::JoinGameRequest(req) => {
            let res = table.join_game(conn, &req.pacman);
            let r = Some(server_client::Message::JoinGameResponse(
                match res {
                    Some(addr) => JoinGameResponse::Accepted(addr),
                    None => JoinGameResponse::Rejected,
                },
            ));
            proof {
                assert(reply_view(r) == spec_reply(
                    old(table)@, old(lb)@, *conn, msg@, now, answer,
                    Seq::<UserStatusEntryV>::empty(),
                ));
            }
            r
        },
        MessageEnum::LeaderboardRequest => {
            let top10 = clone_entries(lb.get_leaderboard());
            let r = Some(server_client::Message::LeaderboardResponse(
                LeaderboardResponse { top10 },
            ));
            proof {
                assert(entry_views(top10@) =~= old(lb)@);
                assert(reply_view(r) == spec_reply(
                    old(table)@, old(lb)@, *conn, msg@, now, answer,
                    Seq::<UserStatusEntryV>::empty(),
                ));
            }
            r
        },
        MessageEnum::AddLeaderboardEntry(entry) => {
            lb.add_leaderboard_entry(LeaderboardEntry {
                score: entry.score,
                user: entry.user.clone(),
            });
            proof {
                assert(reply_view(None::<server_client::Message>) == spec_reply(
                    old(table)@, old(lb)@, *conn, msg@, now, answer,
                    Seq::<UserStatusEntryV>::empty(),
                ));
            }
            None
        },
    }
}

} // verus!
