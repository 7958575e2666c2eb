//! The server's session table: the authoritative map from connection
//! identity to session state, with the username index and the two pairing
//! indices, all mutated together under one lock.
//!
//! Every operation is specified against a mathematical model (`TableV`,
//! four maps) by a specification-level transition function, and the
//! well-formedness of the model — the username index a bijection onto the
//! logged-in sessions, the two pairing maps mutual inverses, roles only on
//! logged-in sessions — is proved preserved by every operation.

use vstd::prelude::*;
use crate::{Connection, NetAddr, HEARTBEAT_TIMEOUT_MS};
use crate::server_client::{UserGameStatus, UserGameStatusV, UserStatusEntry, UserStatusEntryV};
use crate::alist::{
    alist_map, distinct_keys,
    lemma_alist_index, lemma_alist_absent, lemma_alist_dom,
    lemma_alist_push, lemma_alist_update, lemma_alist_remove,
};

verus! {

/// A session's game role: hosting a game at a listener address, joined
/// into another user's game, or neither.
#[derive(Clone, Copy, Debug, PartialEq, Eq, Structural)]
pub enum GameStatus {
    Pacman(NetAddr),
    Joined,
    Idle,
}

/// One session's state.
#[derive(Clone, Debug)]
pub struct ConnectionData {
    pub user: Option<String>,
    pub status: GameStatus,
    pub last_heartbeat: u64,
}

/// The mathematical value of one session's state.
#[verifier::ext_equal]
pub struct ConnectionDataV {
    pub user: Option<Seq<char>>,
    pub status: GameStatus,
    pub last_heartbeat: u64,
}

impl View for ConnectionData {
    type V = ConnectionDataV;

    open spec fn view(&self) -> ConnectionDataV {
        ConnectionDataV {
            user: match self.user {
                Some(ref u) => Some(u@),
                None => None,
            },
            status: self.status,
            last_heartbeat: self.last_heartbeat,
        }
    }
}

/// The mathematical value of the whole table: the session map and its
/// three indices.
#[verifier::ext_equal]
pub struct TableV {
    pub conns: Map<Connection, ConnectionDataV>,
    pub users: Map<Seq<char>, Connection>,
    pub pacmans: Map<Seq<char>, Option<Seq<char>>>,
    pub ghosts: Map<Seq<char>, Seq<char>>,
}

/// The session table. All four vectors hold pairwise-distinct keys; the
/// contracts speak of the maps they stand for.
pub struct ConnectionTable {
    connections: Vec<(Connection, ConnectionData)>,
    users: Vec<(String, Connection)>,
    pacmans: Vec<(String, Option<String>)>,
    ghosts: Vec<(String, String)>,
}

pub open spec fn opt_view(o: Option<String>) -> Option<Seq<char>> {
    match o {
        Some(s) => Some(s@),
        None => None,
    }
}

pub open spec fn conns_seq(s: Seq<(Connection, ConnectionData)>)
    -> Seq<(Connection, ConnectionDataV)> {
    Seq::new(s.len(), |i: int| (s[i].0, s[i].1@))
}

pub open spec fn users_seq(s: Seq<(String, Connection)>) -> Seq<(Seq<char>, Connection)> {
    Seq::new(s.len(), |i: int| (s[i].0@, s[i].1))
}

pub open spec fn pacmans_seq(s: Seq<(String, Option<String>)>)
    -> Seq<(Seq<char>, Option<Seq<char>>)> {
    Seq::new(s.len(), |i: int| (s[i].0@, opt_view(s[i].1)))
}

pub open spec fn ghosts_seq(s: Seq<(String, String)>) -> Seq<(Seq<char>, Seq<char>)> {
    Seq::new(s.len(), |i: int| (s[i].0@, s[i].1@))
}

impl View for ConnectionTable {
    type V = TableV;

    closed spec fn view(&self) -> TableV {
        TableV {
            conns: alist_map(conns_seq(self.connections@)),
            users: alist_map(users_seq(self.users@)),
            pacmans: alist_map(pacmans_seq(self.pacmans@)),
            ghosts: alist_map(ghosts_seq(self.ghosts@)),
        }
    }
}

// ---------------------------------------------------------------------------
// Well-formedness of the model
// ---------------------------------------------------------------------------

/// Every indexed username belongs to a session logged in under it.
pub open spec fn inv_user_index(v: TableV) -> bool {
    forall|u: Seq<char>| #[trigger] v.users.contains_key(u)
        ==> v.conns.contains_key(v.users[u]) && v.conns[v.users[u]].user == Some(u)
}

/// Every logged-in session is indexed under its username.
pub open spec fn inv_login_indexed(v: TableV) -> bool {
    forall|c: Connection| #[trigger] v.conns.contains_key(c)
        ==> match v.conns[c].user {
            Some(u) => v.users.contains_key(u) && v.users[u] == c,
            None => true,
        }
}

/// A session without a login has no game role.
pub open spec fn inv_role_login(v: TableV) -> bool {
    forall|c: Connection| #[trigger] v.conns.contains_key(c)
        ==> (v.conns[c].user is None ==> v.conns[c].status == GameStatus::Idle)
}

/// Every hosting slot belongs to a logged-in user whose session hosts.
pub open spec fn inv_pacman_index(v: TableV) -> bool {
    forall|p: Seq<char>| #[trigger] v.pacmans.contains_key(p)
        ==> v.users.contains_key(p) && v.conns.contains_key(v.users[p])
            && v.conns[v.users[p]].status is Pacman
}

/// Every hosting session has its slot registered.
pub open spec fn inv_pacman_role(v: TableV) -> bool {
    forall|c: Connection| #[trigger] v.conns.contains_key(c)
        ==> (v.conns[c].status is Pacman ==> match v.conns[c].user {
            Some(u) => v.pacmans.contains_key(u),
            None => false,
        })
}

/// Every joined entry belongs to a logged-in user whose session joined.
pub open spec fn inv_ghost_index(v: TableV) -> bool {
    forall|g: Seq<char>| #[trigger] v.ghosts.contains_key(g)
        ==> v.users.contains_key(g) && v.conns.contains_key(v.users[g])
            && v.conns[v.users[g]].status is Joined
}

/// Every joined session has its entry registered.
pub open spec fn inv_ghost_role(v: TableV) -> bool {
    forall|c: Connection| #[trigger] v.conns.contains_key(c)
        ==> (v.conns[c].status is Joined ==> match v.conns[c].user {
            Some(u) => v.ghosts.contains_key(u),
            None => false,
        })
}

/// The hosting and joined maps are mutual inverses: a joined entry points
/// at a hosting slot filled with it, and a filled slot points back.
pub open spec fn inv_pairing(v: TableV) -> bool {
    &&& forall|g: Seq<char>| #[trigger] v.ghosts.contains_key(g)
        ==> v.pacmans.contains_key(v.ghosts[g]) && v.pacmans[v.ghosts[g]] == Some(g)
    &&& forall|p: Seq<char>| #[trigger] v.pacmans.contains_key(p)
        ==> match v.pacmans[p] {
            Some(g) => v.ghosts.contains_key(g) && v.ghosts[g] == p,
            None => true,
        }
}

/// The table's full invariant.
pub open spec fn wf_table(v: TableV) -> bool {
    &&& inv_user_index(v)
    &&& inv_login_indexed(v)
    &&& inv_role_login(v)
    &&& inv_pacman_index(v)
    &&& inv_pacman_role(v)
    &&& inv_ghost_index(v)
    &&& inv_ghost_role(v)
    &&& inv_pairing(v)
}

// ---------------------------------------------------------------------------
// The transition model
// ---------------------------------------------------------------------------

pub open spec fn upd_status(d: ConnectionDataV, st: GameStatus) -> ConnectionDataV {
    ConnectionDataV { status: st, ..d }
}

/// A fresh, unauthenticated, idle session first seen at time `now`.
pub open spec fn fresh_session(now: u64) -> ConnectionDataV {
    ConnectionDataV { user: None, status: GameStatus::Idle, last_heartbeat: now }
}

/// Creates a session for an unseen identity; rejects a known one.
pub open spec fn spec_insert(v: TableV, c: Connection, now: u64) -> (TableV, bool) {
    if v.conns.contains_key(c) {
        (v, false)
    } else {
        (TableV { conns: v.conns.insert(c, fresh_session(now)), ..v }, true)
    }
}

/// Refreshes a known session's heartbeat; tolerates an unknown identity.
pub open spec fn spec_set_heartbeat(v: TableV, c: Connection, now: u64) -> TableV {
    if v.conns.contains_key(c) {
        TableV {
            conns: v.conns.insert(c, ConnectionDataV { last_heartbeat: now, ..v.conns[c] }),
            ..v
        }
    } else {
        v
    }
}

/// Logs a session in: the identity must be known and logged out, and the
/// username must not be active anywhere.
pub open spec fn spec_login(v: TableV, c: Connection, u: Seq<char>) -> (TableV, bool) {
    if v.conns.contains_key(c) && v.conns[c].user is None && !v.users.contains_key(u) {
        (
            TableV {
                conns: v.conns.insert(c, ConnectionDataV { user: Some(u), ..v.conns[c] }),
                users: v.users.insert(u, c),
                ..v
            },
            true,
        )
    } else {
        (v, false)
    }
}

/// Registers a hosting slot: the session must be logged in and idle.
pub open spec fn spec_create_game(v: TableV, c: Connection, addr: NetAddr) -> (TableV, bool) {
    if v.conns.contains_key(c) {
        match v.conns[c].user {
            None => (v, false),
            Some(u) => {
                if v.conns[c].status == GameStatus::Idle {
                    (
                        TableV {
                            conns: v.conns.insert(
                                c,
                                upd_status(v.conns[c], GameStatus::Pacman(addr)),
                            ),
                            pacmans: v.pacmans.insert(u, None),
                            ..v
                        },
                        true,
                    )
                } else {
                    (v, false)
                }
            },
        }
    } else {
        (v, false)
    }
}

/// Fills a hosting user's slot: the joiner must be logged in and idle, the
/// host hosting with a free slot; on success the host's listener address
/// comes back.
pub open spec fn spec_join_game(v: TableV, c: Connection, p: Seq<char>)
    -> (TableV, Option<NetAddr>) {
    if v.conns.contains_key(c) && v.conns[c].user is Some
        && v.conns[c].status == GameStatus::Idle && v.users.contains_key(p)
        && v.conns.contains_key(v.users[p]) && v.conns[v.users[p]].status is Pacman
        && v.pacmans.contains_key(p) && v.pacmans[p] is None {
        let u = v.conns[c].user->Some_0;
        let addr = v.conns[v.users[p]].status->Pacman_0;
        (
            TableV {
                conns: v.conns.insert(c, upd_status(v.conns[c], GameStatus::Joined)),
                pacmans: v.pacmans.insert(p, Some(u)),
                ghosts: v.ghosts.insert(u, p),
                ..v
            },
            Some(addr),
        )
    } else {
        (v, None)
    }
}

/// Takes a session out of its game, cascading to its partner: a kicked
/// host reverts its joined partner to idle and clears both pairing
/// entries; a kicked joiner frees the host's slot. Idle or logged-out
/// sessions report `false`.
pub open spec fn spec_kick(v: TableV, c: Connection) -> (TableV, bool) {
    if !v.conns.contains_key(c) {
        (v, false)
    } else {
        let d = v.conns[c];
        match d.user {
            None => (v, false),
            Some(u) => match d.status {
                GameStatus::Idle => (v, false),
                GameStatus::Pacman(_) => {
                    let v1 = TableV {
                        conns: v.conns.insert(c, upd_status(d, GameStatus::Idle)),
                        pacmans: v.pacmans.remove(u),
                        ..v
                    };
                    if v.pacmans.contains_key(u) {
                        match v.pacmans[u] {
                            None => (v1, true),
                            Some(g) => {
                                let v2 = TableV { ghosts: v1.ghosts.remove(g), ..v1 };
                                if v.users.contains_key(g)
                                    && v2.conns.contains_key(v.users[g]) {
                                    (
                                        TableV {
                                            conns: v2.conns.insert(
                                                v.users[g],
                                                upd_status(
                                                    v2.conns[v.users[g]],
                                                    GameStatus::Idle,
                                                ),
                                            ),
                                            ..v2
                                        },
                                        true,
                                    )
                                } else {
                                    (v2, true)
                                }
                            },
                        }
                    } else {
                        (v1, true)
                    }
                },
                GameStatus::Joined => {
                    let v1 = TableV {
                        conns: v.conns.insert(c, upd_status(d, GameStatus::Idle)),
                        ghosts: v.ghosts.remove(u),
                        ..v
                    };
                    if v.ghosts.contains_key(u) {
                        let p = v.ghosts[u];
                        if v.pacmans.contains_key(p) {
                            (
                                TableV { pacmans: v1.pacmans.insert(p, None), ..v1 },
                                true,
                            )
                        } else {
                            (v1, true)
                        }
                    } else {
                        (v1, true)
                    }
                },
            },
        }
    }
}

/// Logs a session out: kicks it from any game first, then clears its
/// login and username index entry. `false` when it had no login.
pub open spec fn spec_logout(v: TableV, c: Connection) -> (TableV, bool) {
    let v1 = spec_kick(v, c).0;
    if v1.conns.contains_key(c) {
        match v1.conns[c].user {
            None => (v1, false),
            Some(u) => (
                TableV {
                    conns: v1.conns.insert(
                        c,
                        ConnectionDataV { user: None, ..v1.conns[c] },
                    ),
                    users: v1.users.remove(u),
                    ..v1
                },
                true,
            ),
        }
    } else {
        (v1, false)
    }
}

/// Destroys a session: forces a logout (with its cascade), then deletes
/// the entry. `true` when the identity was known.
pub open spec fn spec_remove(v: TableV, c: Connection) -> (TableV, bool) {
    let v1 = spec_logout(v, c).0;
    (TableV { conns: v1.conns.remove(c), ..v1 }, v.conns.contains_key(c))
}


// ---------------------------------------------------------------------------
// The invariant is preserved by every operation
// ---------------------------------------------------------------------------

/// A fresh session neither logs in nor takes a role, so the invariant
/// survives an insert.
pub proof fn lemma_insert_wf(v: TableV, c: Connection, now: u64)
    requires
        wf_table(v),
    ensures
        wf_table(spec_insert(v, c, now).0),
{
}

/// A heartbeat refresh changes no login and no role.
pub proof fn lemma_set_heartbeat_wf(v: TableV, c: Connection, now: u64)
    requires
        wf_table(v),
    ensures
        wf_table(spec_set_heartbeat(v, c, now)),
{
}

/// A login adds one username index entry, for the session that takes it.
pub proof fn lemma_login_wf(v: TableV, c: Connection, u: Seq<char>)
    requires
        wf_table(v),
    ensures
        wf_table(spec_login(v, c, u).0),
{
}

/// Opening a game registers an empty slot for the hosting user.
pub proof fn lemma_create_game_wf(v: TableV, c: Connection, addr: NetAddr)
    requires
        wf_table(v),
    ensures
        wf_table(spec_create_game(v, c, addr).0),
{
}

/// Joining fills the host's slot and the joiner's reverse entry together.
pub proof fn lemma_join_game_wf(v: TableV, c: Connection, p: Seq<char>)
    requires
        wf_table(v),
    ensures
        wf_table(spec_join_game(v, c, p).0),
{
}

/// A kick clears a pairing on both sides at once.
pub proof fn lemma_kick_wf(v: TableV, c: Connection)
    requires
        wf_table(v),
    ensures
        wf_table(spec_kick(v, c).0),
{
}

/// A logout kicks first, then clears exactly the session's own index
/// entry.
pub proof fn lemma_logout_wf(v: TableV, c: Connection)
    requires
        wf_table(v),
    ensures
        wf_table(spec_logout(v, c).0),
{
    lemma_kick_wf(v, c);
}

/// A removal logs out first, so the deleted session is unreferenced.
pub proof fn lemma_remove_wf(v: TableV, c: Connection)
    requires
        wf_table(v),
    ensures
        wf_table(spec_remove(v, c).0),
{
    lemma_logout_wf(v, c);
}


// ---------------------------------------------------------------------------
// Laws of the model
// ---------------------------------------------------------------------------

/// Inserting the same identity twice: the second insert is refused and
/// leaves the table exactly as the first left it.
pub proof fn lemma_insert_idempotent(v: TableV, c: Connection, n1: u64, n2: u64)
    ensures
        !spec_insert(spec_insert(v, c, n1).0, c, n2).1,
        spec_insert(spec_insert(v, c, n1).0, c, n2).0 == spec_insert(v, c, n1).0,
{
}

/// At most one session is logged in under a username at a time.
pub proof fn lemma_session_uniqueness(v: TableV, c1: Connection, c2: Connection, u: Seq<char>)
    requires
        wf_table(v),
        v.conns.contains_key(c1),
        v.conns.contains_key(c2),
        v.conns[c1].user == Some(u),
        v.conns[c2].user == Some(u),
    ensures
        c1 == c2,
{
}

/// Of any two logins for the same username, at most one succeeds: after
/// one success every further login under that name is refused until a
/// logout frees it.
pub proof fn lemma_login_excludes(v: TableV, c1: Connection, c2: Connection, u: Seq<char>)
    ensures
        spec_login(v, c1, u).1 ==> !spec_login(spec_login(v, c1, u).0, c2, u).1,
{
}

/// One table operation, as data: the alphabet of the history law below.
pub enum TableOp {
    Insert(Connection, u64),
    SetHeartbeat(Connection, u64),
    Login(Connection, Seq<char>),
    CreateGame(Connection, NetAddr),
    JoinGame(Connection, Seq<char>),
    Kick(Connection),
    Logout(Connection),
    Remove(Connection),
}

pub open spec fn apply_op(v: TableV, op: TableOp) -> TableV {
    match op {
        TableOp::Insert(c, now) => spec_insert(v, c, now).0,
        TableOp::SetHeartbeat(c, now) => spec_set_heartbeat(v, c, now),
        TableOp::Login(c, u) => spec_login(v, c, u).0,
        TableOp::CreateGame(c, addr) => spec_create_game(v, c, addr).0,
        TableOp::JoinGame(c, p) => spec_join_game(v, c, p).0,
        TableOp::Kick(c) => spec_kick(v, c).0,
        TableOp::Logout(c) => spec_logout(v, c).0,
        TableOp::Remove(c) => spec_remove(v, c).0,
    }
}

pub open spec fn apply_ops(v: TableV, ops: Seq<TableOp>) -> TableV
    decreases ops.len(),
{
    if ops.len() == 0 {
        v
    } else {
        apply_ops(apply_op(v, ops[0]), ops.drop_first())
    }
}

/// Each single operation preserves the invariant.
pub proof fn lemma_apply_op_wf(v: TableV, op: TableOp)
    requires
        wf_table(v),
    ensures
        wf_table(apply_op(v, op)),
{
    match op {
        TableOp::Insert(c, now) => lemma_insert_wf(v, c, now),
        TableOp::SetHeartbeat(c, now) => lemma_set_heartbeat_wf(v, c, now),
        TableOp::Login(c, u) => lemma_login_wf(v, c, u),
        TableOp::CreateGame(c, addr) => lemma_create_game_wf(v, c, addr),
        TableOp::JoinGame(c, p) => lemma_join_game_wf(v, c, p),
        TableOp::Kick(c) => lemma_kick_wf(v, c),
        TableOp::Logout(c) => lemma_logout_wf(v, c),
        TableOp::Remove(c) => lemma_remove_wf(v, c),
    }
}

/// After any sequence of table operations on a well-formed table, the
/// hosting and joined maps are still mutual inverses (and the whole
/// invariant still holds).
pub proof fn lemma_pairing_inverse(v: TableV, ops: Seq<TableOp>)
    requires
        wf_table(v),
    ensures
        wf_table(apply_ops(v, ops)),
        inv_pairing(apply_ops(v, ops)),
    decreases ops.len(),
{
    if ops.len() > 0 {
        lemma_apply_op_wf(v, ops[0]);
        lemma_pairing_inverse(apply_op(v, ops[0]), ops.drop_first());
    }
}


/// Evicting or removing a hosting session cascades: its joined partner's
/// session survives with its role reverted to idle, and both pairing
/// entries are gone.
pub proof fn lemma_remove_cascades(v: TableV, c: Connection, u: Seq<char>, g: Seq<char>)
    requires
        wf_table(v),
        v.conns.contains_key(c),
        v.conns[c].user == Some(u),
        v.conns[c].status is Pacman,
        v.pacmans.contains_key(u),
        v.pacmans[u] == Some(g),
    ensures
        v.users.contains_key(g),
        v.users[g] != c,
        spec_remove(v, c).0.conns.contains_key(v.users[g]),
        spec_remove(v, c).0.conns[v.users[g]].status == GameStatus::Idle,
        !spec_remove(v, c).0.ghosts.contains_key(g),
        !spec_remove(v, c).0.pacmans.contains_key(u),
{
}

/// Destroying a session deletes exactly that session: every other
/// identity keeps its entry and its heartbeat, though a partner paired
/// with the removed session has its role reverted.
pub proof fn lemma_remove_effects(v: TableV, c: Connection)
    requires
        wf_table(v),
    ensures
        !spec_remove(v, c).0.conns.contains_key(c),
        forall|c2: Connection| c2 != c ==> (#[trigger] spec_remove(v, c).0.conns.contains_key(c2)
            == v.conns.contains_key(c2)),
        forall|c2: Connection| c2 != c && #[trigger] v.conns.contains_key(c2)
            ==> spec_remove(v, c).0.conns[c2].last_heartbeat == v.conns[c2].last_heartbeat,
{
}



/// The session's heartbeat is older than the timeout allows: the reaper
/// must evict it.
pub open spec fn spec_expired(v: TableV, c: Connection, now: u64) -> bool {
    v.conns.contains_key(c) && v.conns[c].last_heartbeat + HEARTBEAT_TIMEOUT_MS < now
}

/// What one row of the connected-users listing must say of a user under
/// the table's model.
pub open spec fn user_status_ok(e: UserStatusEntryV, v: TableV) -> bool {
    &&& v.users.contains_key(e.user)
    &&& v.conns.contains_key(v.users[e.user])
    &&& match v.conns[v.users[e.user]].status {
        GameStatus::Idle => e.status == UserGameStatusV::Idle,
        GameStatus::Pacman(_) => e.status == UserGameStatusV::Hosting(
            if v.pacmans.contains_key(e.user) { v.pacmans[e.user] } else { None },
        ),
        GameStatus::Joined => e.status == UserGameStatusV::Joined(
            if v.ghosts.contains_key(e.user) { v.ghosts[e.user] } else { Seq::empty() },
        ),
    }
}

// ---------------------------------------------------------------------------
// The executable table
// ---------------------------------------------------------------------------

impl ConnectionTable {
    /// Pairwise-distinct keys in each of the four vectors.
    closed spec fn inv(self) -> bool {
        &&& distinct_keys(conns_seq(self.connections@))
        &&& distinct_keys(users_seq(self.users@))
        &&& distinct_keys(pacmans_seq(self.pacmans@))
        &&& distinct_keys(ghosts_seq(self.ghosts@))
    }

    /// The table is well formed: its representation carries distinct keys
    /// and its model satisfies the invariant.
    pub closed spec fn well_formed(self) -> bool {
        self.inv() && wf_table(self@)
    }

    /// A well-formed table has a well-formed model.
    pub proof fn lemma_well_formed(self)
        requires
            self.well_formed(),
        ensures
            wf_table(self@),
    {
    }

    /// An empty table.
    pub fn new() -> (t: ConnectionTable)
        ensures
            t.well_formed(),
            t@.conns == Map::<Connection, ConnectionDataV>::empty(),
            t@.users == Map::<Seq<char>, Connection>::empty(),
            t@.pacmans == Map::<Seq<char>, Option<Seq<char>>>::empty(),
            t@.ghosts == Map::<Seq<char>, Seq<char>>::empty(),
    {
        ConnectionTable {
            connections: Vec::new(),
            users: Vec::new(),
            pacmans: Vec::new(),
            ghosts: Vec::new(),
        }
    }

    fn find_conn(&self, c: &Connection) -> (r: Option<usize>)
        requires
            self.inv(),
        ensures
            match r {
                Some(i) => i < self.connections@.len()
                    && self.connections@[i as int].0 == *c
                    && self@.conns.contains_key(*c)
                    && self@.conns[*c] == self.connections@[i as int].1@,
                None => !self@.conns.contains_key(*c),
            },
    {
        let ghost s = conns_seq(self.connections@);
        let mut i: usize = 0;
        while i < self.connections.len()
            invariant
                distinct_keys(s),
                i <= self.connections@.len(),
                s == conns_seq(self.connections@),
                forall|j: int| 0 <= j < i ==> (#[trigger] s[j]).0 != *c,
            decreases self.connections@.len() - i,
        {
            if self.connections[i].0 == *c {
                proof {
                    lemma_alist_index(s, i as int);
                }
                return Some(i);
            }
            i += 1;
        }
        proof {
            lemma_alist_absent(s, *c);
        }
        None
    }

    fn find_user(&self, u: &String) -> (r: Option<usize>)
        requires
            self.inv(),
        ensures
            match r {
                Some(i) => i < self.users@.len()
                    && self.users@[i as int].0@ == u@
                    && self@.users.contains_key(u@)
                    && self@.users[u@] == self.users@[i as int].1,
                None => !self@.users.contains_key(u@),
            },
    {
        let ghost s = users_seq(self.users@);
        let mut i: usize = 0;
        while i < self.users.len()
            invariant
                distinct_keys(s),
                i <= self.users@.len(),
                s == users_seq(self.users@),
                forall|j: int| 0 <= j < i ==> (#[trigger] s[j]).0 != u@,
            decreases self.users@.len() - i,
        {
            if self.users[i].0.eq(u) {
                proof {
                    lemma_alist_index(s, i as int);
                }
                return Some(i);
            }
            i += 1;
        }
        proof {
            lemma_alist_absent(s, u@);
        }
        None
    }

    fn find_pacman(&self, u: &String) -> (r: Option<usize>)
        requires
            self.inv(),
        ensures
            match r {
                Some(i) => i < self.pacmans@.len()
                    && self.pacmans@[i as int].0@ == u@
                    && self@.pacmans.contains_key(u@)
                    && self@.pacmans[u@] == opt_view(self.pacmans@[i as int].1),
                None => !self@.pacmans.contains_key(u@),
            },
    {
        let ghost s = pacmans_seq(self.pacmans@);
        let mut i: usize = 0;
        while i < self.pacmans.len()
            invariant
                distinct_keys(s),
                i <= self.pacmans@.len(),
                s == pacmans_seq(self.pacmans@),
                forall|j: int| 0 <= j < i ==> (#[trigger] s[j]).0 != u@,
            decreases self.pacmans@.len() - i,
        {
            if self.pacmans[i].0.eq(u) {
                proof {
                    lemma_alist_index(s, i as int);
                }
                return Some(i);
            }
            i += 1;
        }
        proof {
            lemma_alist_absent(s, u@);
        }
        None
    }

    fn find_ghost(&self, u: &String) -> (r: Option<usize>)
        requires
            self.inv(),
        ensures
            match r {
                Some(i) => i < self.ghosts@.len()
                    && self.ghosts@[i as int].0@ == u@
                    && self@.ghosts.contains_key(u@)
                    && self@.ghosts[u@] == self.ghosts@[i as int].1@,
                None => !self@.ghosts.contains_key(u@),
            },
    {
        let ghost s = ghosts_seq(self.ghosts@);
        let mut i: usize = 0;
        while i < self.ghosts.len()
            invariant
                distinct_keys(s),
                i <= self.ghosts@.len(),
                s == ghosts_seq(self.ghosts@),
                forall|j: int| 0 <= j < i ==> (#[trigger] s[j]).0 != u@,
            decreases self.ghosts@.len() - i,
        {
            if self.ghosts[i].0.eq(u) {
                proof {
                    lemma_alist_index(s, i as int);
                }
                return Some(i);
            }
            i += 1;
        }
        proof {
            lemma_alist_absent(s, u@);
        }
        None
    }

    /// Replaces the session data at index `i`, keeping its key.
    fn set_conn(&mut self, i: usize, d: ConnectionData)
        requires
            old(self).inv(),
            i < old(self).connections@.len(),
        ensures
            final(self).inv(),
            final(self)@ == (TableV {
                conns: old(self)@.conns.insert(old(self).connections@[i as int].0, d@),
                ..old(self)@
            }),
            final(self).connections@.len() == old(self).connections@.len(),
            final(self).connections@
                == old(self).connections@.update(
                    i as int,
                    (old(self).connections@[i as int].0, d),
                ),
            final(self).users@ == old(self).users@,
            final(self).pacmans@ == old(self).pacmans@,
            final(self).ghosts@ == old(self).ghosts@,
    {
        let ghost s = conns_seq(self.connections@);
        let key = self.connections[i].0;
        self.connections[i] = (key, d);
        proof {
            assert(conns_seq(self.connections@) =~= s.update(i as int, (s[i as int].0, d@)));
            lemma_alist_update(s, i as int, d@);
        }
    }

    /// Creates an idle, unauthenticated session for an unseen identity at
    /// time `now`; refuses a known identity and leaves the table unchanged.
    pub fn insert(&mut self, conn: &Connection, now: u64) -> (r: bool)
        requires
            old(self).well_formed(),
        ensures
            final(self).well_formed(),
            final(self)@ == spec_insert(old(self)@, *conn, now).0,
            r == spec_insert(old(self)@, *conn, now).1,
            r == !old(self)@.conns.contains_key(*conn),
    {
        match self.find_conn(conn) {
            Some(_) => false,
            None => {
                let ghost s = conns_seq(self.connections@);
                proof {
                    assert forall|j: int| 0 <= j < s.len()
                        implies (#[trigger] s[j]).0 != *conn by {
                        lemma_alist_index(s, j);
                    }
                }
                self.connections.push((
                    *conn,
                    ConnectionData {
                        user: None,
                        status: GameStatus::Idle,
                        last_heartbeat: now,
                    },
                ));
                proof {
                    assert(conns_seq(self.connections@)
                        =~= s.push((*conn, fresh_session(now))));
                    lemma_alist_push(s, *conn, fresh_session(now));
                    assert(distinct_keys(conns_seq(self.connections@)));
                    lemma_insert_wf(old(self)@, *conn, now);
                }
                true
            },
        }
    }

    /// Refreshes a known session's heartbeat timestamp; an unknown
    /// identity is tolerated and nothing changes.
    pub fn set_heartbeat(&mut self, conn: &Connection, now: u64)
        requires
            old(self).well_formed(),
        ensures
            final(self).well_formed(),
            final(self)@ == spec_set_heartbeat(old(self)@, *conn, now),
    {
        match self.find_conn(conn) {
            None => (),
            Some(i) => {
                let user = match &self.connections[i].1.user {
                    None => None,
                    Some(x) => Some(x.clone()),
                };
                let st = self.connections[i].1.status;
                self.set_conn(i, ConnectionData { user, status: st, last_heartbeat: now });
                proof {
                    lemma_set_heartbeat_wf(old(self)@, *conn, now);
                }
            },
        }
    }

    /// Logs a known, logged-out session in under a username no other
    /// session holds; refuses otherwise.
    pub fn login(&mut self, conn: &Connection, user: &String) -> (r: bool)
        requires
            old(self).well_formed(),
        ensures
            final(self).well_formed(),
            final(self)@ == spec_login(old(self)@, *conn, user@).0,
            r == spec_login(old(self)@, *conn, user@).1,
    {
        let i = match self.find_conn(conn) {
            None => {
                return false;
            },
            Some(i) => i,
        };
        if self.connections[i].1.user.is_some() {
            return false;
        }
        if self.find_user(user).is_some() {
            return false;
        }
        let st = self.connections[i].1.status;
        let hb = self.connections[i].1.last_heartbeat;
        self.set_conn(i, ConnectionData {
            user: Some(user.clone()),
            status: st,
            last_heartbeat: hb,
        });
        let ghost us = users_seq(self.users@);
        proof {
            assert forall|j: int| 0 <= j < us.len()
                implies (#[trigger] us[j]).0 != user@ by {
                lemma_alist_index(us, j);
            }
        }
        self.users.push((user.clone(), *conn));
        proof {
            assert(users_seq(self.users@) =~= us.push((user@, *conn)));
            lemma_alist_push(us, user@, *conn);
            assert(distinct_keys(users_seq(self.users@)));
            lemma_login_wf(old(self)@, *conn, user@);
        }
        true
    }

    /// Sets or replaces a hosting slot.
    fn pacman_upsert(&mut self, key: &String, val: Option<String>)
        requires
            old(self).inv(),
        ensures
            final(self).inv(),
            final(self)@ == (TableV {
                pacmans: old(self)@.pacmans.insert(key@, opt_view(val)),
                ..old(self)@
            }),
    {
        let ghost ps = pacmans_seq(self.pacmans@);
        match self.find_pacman(key) {
            Some(pi) => {
                let k = self.pacmans[pi].0.clone();
                self.pacmans[pi] = (k, val);
                proof {
                    assert(pacmans_seq(self.pacmans@)
                        =~= ps.update(pi as int, (ps[pi as int].0, opt_view(val))));
                    lemma_alist_update(ps, pi as int, opt_view(val));
                    assert(final(self)@ =~= (TableV {
                        pacmans: old(self)@.pacmans.insert(key@, opt_view(val)),
                        ..old(self)@
                    }));
                }
            },
            None => {
                proof {
                    assert forall|j: int| 0 <= j < ps.len()
                        implies (#[trigger] ps[j]).0 != key@ by {
                        lemma_alist_index(ps, j);
                    }
                }
                self.pacmans.push((key.clone(), val));
                proof {
                    assert(pacmans_seq(self.pacmans@) =~= ps.push((key@, opt_view(val))));
                    lemma_alist_push(ps, key@, opt_view(val));
                    assert(distinct_keys(pacmans_seq(self.pacmans@)));
                    assert(final(self)@ =~= (TableV {
                        pacmans: old(self)@.pacmans.insert(key@, opt_view(val)),
                        ..old(self)@
                    }));
                }
            },
        }
    }

    /// Deletes a hosting slot if present.
    fn pacman_remove_key(&mut self, key: &String)
        requires
            old(self).inv(),
        ensures
            final(self).inv(),
            final(self)@ == (TableV {
                pacmans: old(self)@.pacmans.remove(key@),
                ..old(self)@
            }),
    {
        let ghost ps = pacmans_seq(self.pacmans@);
        match self.find_pacman(key) {
            Some(pi) => {
                self.pacmans.remove(pi);
                proof {
                    assert(pacmans_seq(self.pacmans@) =~= ps.remove(pi as int));
                    lemma_alist_remove(ps, pi as int);
                    assert(final(self)@ =~= (TableV {
                        pacmans: old(self)@.pacmans.remove(key@),
                        ..old(self)@
                    }));
                }
            },
            None => {
                proof {
                    assert(old(self)@.pacmans.remove(key@) =~= old(self)@.pacmans);
                    assert(final(self)@ =~= (TableV {
                        pacmans: old(self)@.pacmans.remove(key@),
                        ..old(self)@
                    }));
                }
            },
        }
    }

    /// Sets or replaces a joined entry.
    fn ghost_upsert(&mut self, key: &String, val: String)
        requires
            old(self).inv(),
        ensures
            final(self).inv(),
            final(self)@ == (TableV {
                ghosts: old(self)@.ghosts.insert(key@, val@),
                ..old(self)@
            }),
    {
        let ghost gs = ghosts_seq(self.ghosts@);
        match self.find_ghost(key) {
            Some(gi) => {
                let k = self.ghosts[gi].0.clone();
                self.ghosts[gi] = (k, val);
                proof {
                    assert(ghosts_seq(self.ghosts@)
                        =~= gs.update(gi as int, (gs[gi as int].0, val@)));
                    lemma_alist_update(gs, gi as int, val@);
                    assert(final(self)@ =~= (TableV {
                        ghosts: old(self)@.ghosts.insert(key@, val@),
                        ..old(self)@
                    }));
                }
            },
            None => {
                proof {
                    assert forall|j: int| 0 <= j < gs.len()
                        implies (#[trigger] gs[j]).0 != key@ by {
                        lemma_alist_index(gs, j);
                    }
                }
                self.ghosts.push((key.clone(), val));
                proof {
                    assert(ghosts_seq(self.ghosts@) =~= gs.push((key@, val@)));
                    lemma_alist_push(gs, key@, val@);
                    assert(distinct_keys(ghosts_seq(self.ghosts@)));
                    assert(final(self)@ =~= (TableV {
                        ghosts: old(self)@.ghosts.insert(key@, val@),
                        ..old(self)@
                    }));
                }
            },
        }
    }

    /// Deletes a joined entry if present.
    fn ghost_remove_key(&mut self, key: &String)
        requires
            old(self).inv(),
        ensures
            final(self).inv(),
            final(self)@ == (TableV {
                ghosts: old(self)@.ghosts.remove(key@),
                ..old(self)@
            }),
    {
        let ghost gs = ghosts_seq(self.ghosts@);
        match self.find_ghost(key) {
            Some(gi) => {
                self.ghosts.remove(gi);
                proof {
                    assert(ghosts_seq(self.ghosts@) =~= gs.remove(gi as int));
                    lemma_alist_remove(gs, gi as int);
                    assert(final(self)@ =~= (TableV {
                        ghosts: old(self)@.ghosts.remove(key@),
                        ..old(self)@
                    }));
                }
            },
            None => {
                proof {
                    assert(old(self)@.ghosts.remove(key@) =~= old(self)@.ghosts);
                    assert(final(self)@ =~= (TableV {
                        ghosts: old(self)@.ghosts.remove(key@),
                        ..old(self)@
                    }));
                }
            },
        }
    }

    /// Deletes a username index entry if present.
    fn user_remove_key(&mut self, key: &String)
        requires
            old(self).inv(),
        ensures
            final(self).inv(),
            final(self)@ == (TableV {
                users: old(self)@.users.remove(key@),
                ..old(self)@
            }),
    {
        let ghost us = users_seq(self.users@);
        match self.find_user(key) {
            Some(ui) => {
                self.users.remove(ui);
                proof {
                    assert(users_seq(self.users@) =~= us.remove(ui as int));
                    lemma_alist_remove(us, ui as int);
                    assert(final(self)@ =~= (TableV {
                        users: old(self)@.users.remove(key@),
                        ..old(self)@
                    }));
                }
            },
            None => {
                proof {
                    assert(old(self)@.users.remove(key@) =~= old(self)@.users);
                    assert(final(self)@ =~= (TableV {
                        users: old(self)@.users.remove(key@),
                        ..old(self)@
                    }));
                }
            },
        }
    }

    /// Deletes a session entry if present.
    fn conn_remove_key(&mut self, key: &Connection)
        requires
            old(self).inv(),
        ensures
            final(self).inv(),
            final(self)@ == (TableV {
                conns: old(self)@.conns.remove(*key),
                ..old(self)@
            }),
    {
        let ghost cs = conns_seq(self.connections@);
        match self.find_conn(key) {
            Some(ci) => {
                self.connections.remove(ci);
                proof {
                    assert(conns_seq(self.connections@) =~= cs.remove(ci as int));
                    lemma_alist_remove(cs, ci as int);
                    assert(final(self)@ =~= (TableV {
                        conns: old(self)@.conns.remove(*key),
                        ..old(self)@
                    }));
                }
            },
            None => {
                proof {
                    assert(old(self)@.conns.remove(*key) =~= old(self)@.conns);
                    assert(final(self)@ =~= (TableV {
                        conns: old(self)@.conns.remove(*key),
                        ..old(self)@
                    }));
                }
            },
        }
    }

    /// Takes a session out of its game: a hosting session loses its slot
    /// and its joined partner (if any) reverts to idle; a joined session
    /// frees the host's slot. Reports whether a game was left.
    pub fn kick(&mut self, conn: &Connection) -> (r: bool)
        requires
            old(self).well_formed(),
        ensures
            final(self).well_formed(),
            final(self)@ == spec_kick(old(self)@, *conn).0,
            r == spec_kick(old(self)@, *conn).1,
    {
        proof {
            lemma_kick_wf(old(self)@, *conn);
        }
        let i = match self.find_conn(conn) {
            None => {
                return false;
            },
            Some(i) => i,
        };
        let user = match &self.connections[i].1.user {
            None => {
                return false;
            },
            Some(u) => u.clone(),
        };
        let st = self.connections[i].1.status;
        let hb = self.connections[i].1.last_heartbeat;
        match st {
            GameStatus::Idle => false,
            GameStatus::Pacman(_) => {
                self.set_conn(i, ConnectionData {
                    user: Some(user.clone()),
                    status: GameStatus::Idle,
                    last_heartbeat: hb,
                });
                let partner: Option<String> = match self.find_pacman(&user) {
                    None => None,
                    Some(pi) => match &self.pacmans[pi].1 {
                        None => None,
                        Some(g) => Some(g.clone()),
                    },
                };
                self.pacman_remove_key(&user);
                match partner {
                    None => {
                        proof {
                            assert(final(self)@ =~= spec_kick(old(self)@, *conn).0);
                        }
                    },
                    Some(g) => {
                        self.ghost_remove_key(&g);
                        match self.find_user(&g) {
                            None => {
                                proof {
                                    assert(final(self)@ =~= spec_kick(old(self)@, *conn).0);
                                }
                            },
                            Some(ui) => {
                                let gconn = self.users[ui].1;
                                match self.find_conn(&gconn) {
                                    None => {
                                        proof {
                                            assert(final(self)@
                                                =~= spec_kick(old(self)@, *conn).0);
                                        }
                                    },
                                    Some(gi) => {
                                        let guser = match &self.connections[gi].1.user {
                                            None => None,
                                            Some(x) => Some(x.clone()),
                                        };
                                        let ghb = self.connections[gi].1.last_heartbeat;
                                        self.set_conn(gi, ConnectionData {
                                            user: guser,
                                            status: GameStatus::Idle,
                                            last_heartbeat: ghb,
                                        });
                                        proof {
                                            assert(final(self)@
                                                =~= spec_kick(old(self)@, *conn).0);
                                        }
                                    },
                                }
                            },
                        }
                    },
                }
                true
            },
            GameStatus::Joined => {
                self.set_conn(i, ConnectionData {
                    user: Some(user.clone()),
                    status: GameStatus::Idle,
                    last_heartbeat: hb,
                });
                let host: Option<String> = match self.find_ghost(&user) {
                    None => None,
                    Some(gi) => Some(self.ghosts[gi].1.clone()),
                };
                self.ghost_remove_key(&user);
                match host {
                    None => {
                        proof {
                            assert(final(self)@ =~= spec_kick(old(self)@, *conn).0);
                        }
                    },
                    Some(p) => {
                        match self.find_pacman(&p) {
                            None => {
                                proof {
                                    assert(final(self)@ =~= spec_kick(old(self)@, *conn).0);
                                }
                            },
                            Some(_) => {
                                self.pacman_upsert(&p, None);
                                proof {
                                    assert(final(self)@ =~= spec_kick(old(self)@, *conn).0);
                                }
                            },
                        }
                    },
                }
                true
            },
        }
    }

    /// Logs a session out: kicks it from any game first, then clears its
    /// login and its username index entry. Reports whether it had a login.
    pub fn logout(&mut self, conn: &Connection) -> (r: bool)
        requires
            old(self).well_formed(),
        ensures
            final(self).well_formed(),
            final(self)@ == spec_logout(old(self)@, *conn).0,
            r == spec_logout(old(self)@, *conn).1,
    {
        proof {
            lemma_logout_wf(old(self)@, *conn);
        }
        let _ = self.kick(conn);
        let i = match self.find_conn(conn) {
            None => {
                return false;
            },
            Some(i) => i,
        };
        let user = match &self.connections[i].1.user {
            None => {
                return false;
            },
            Some(u) => u.clone(),
        };
        let st = self.connections[i].1.status;
        let hb = self.connections[i].1.last_heartbeat;
        self.set_conn(i, ConnectionData { user: None, status: st, last_heartbeat: hb });
        self.user_remove_key(&user);
        proof {
            assert(final(self)@ =~= spec_logout(old(self)@, *conn).0);
        }
        true
    }

    /// Destroys a session: forces a logout (with its cascade), then
    /// deletes the entry. Reports whether the identity was known.
    pub fn remove(&mut self, conn: &Connection) -> (r: bool)
        requires
            old(self).well_formed(),
        ensures
            final(self).well_formed(),
            final(self)@ == spec_remove(old(self)@, *conn).0,
            r == spec_remove(old(self)@, *conn).1,
    {
        proof {
            lemma_remove_wf(old(self)@, *conn);
        }
        let existed = match self.find_conn(conn) {
            None => false,
            Some(_) => true,
        };
        let _ = self.logout(conn);
        self.conn_remove_key(conn);
        proof {
            assert(final(self)@ =~= spec_remove(old(self)@, *conn).0);
        }
        existed
    }

    /// Registers a hosting slot for a logged-in, idle session and records
    /// its listener address; refuses otherwise.
    pub fn create_game(&mut self, conn: &Connection, listener_addr: NetAddr) -> (r: bool)
        requires
            old(self).well_formed(),
        ensures
            final(self).well_formed(),
            final(self)@ == spec_create_game(old(self)@, *conn, listener_addr).0,
            r == spec_create_game(old(self)@, *conn, listener_addr).1,
    {
        proof {
            lemma_create_game_wf(old(self)@, *conn, listener_addr);
        }
        let i = match self.find_conn(conn) {
            None => {
                return false;
            },
            Some(i) => i,
        };
        let user = match &self.connections[i].1.user {
            None => {
                return false;
            },
            Some(u) => u.clone(),
        };
        match self.connections[i].1.status {
            GameStatus::Idle => (),
            _ => {
                return false;
            },
        }
        let hb = self.connections[i].1.last_heartbeat;
        self.set_conn(i, ConnectionData {
            user: Some(user.clone()),
            status: GameStatus::Pacman(listener_addr),
            last_heartbeat: hb,
        });
        self.pacman_upsert(&user, None);
        proof {
            assert(final(self)@ =~= spec_create_game(old(self)@, *conn, listener_addr).0);
        }
        true
    }

    /// Fills a hosting user's free slot with a logged-in, idle joiner and
    /// hands back the host's listener address; refuses otherwise.
    pub fn join_game(&mut self, conn: &Connection, pacman: &String) -> (r: Option<NetAddr>)
        requires
            old(self).well_formed(),
        ensures
            final(self).well_formed(),
            final(self)@ == spec_join_game(old(self)@, *conn, pacman@).0,
            r == spec_join_game(old(self)@, *conn, pacman@).1,
    {
        proof {
            lemma_join_game_wf(old(self)@, *conn, pacman@);
        }
        let i = match self.find_conn(conn) {
            None => {
                return None;
            },
            Some(i) => i,
        };
        let user = match &self.connections[i].1.user {
            None => {
                return None;
            },
            Some(u) => u.clone(),
        };
        match self.connections[i].1.status {
            GameStatus::Idle => (),
            _ => {
                return None;
            },
        }
        let ui = match self.find_user(pacman) {
            None => {
                return None;
            },
            Some(ui) => ui,
        };
        let pconn = self.users[ui].1;
        let pj = match self.find_conn(&pconn) {
            None => {
                return None;
            },
            Some(pj) => pj,
        };
        let addr = match self.connections[pj].1.status {
            GameStatus::Pacman(addr) => addr,
            _ => {
                return None;
            },
        };
        let pi = match self.find_pacman(pacman) {
            None => {
                return None;
            },
            Some(pi) => pi,
        };
        if self.pacmans[pi].1.is_some() {
            return None;
        }
        let hb = self.connections[i].1.last_heartbeat;
        self.set_conn(i, ConnectionData {
            user: Some(user.clone()),
            status: GameStatus::Joined,
            last_heartbeat: hb,
        });
        self.pacman_upsert(pacman, Some(user.clone()));
        self.ghost_upsert(&user, pacman.clone());
        proof {
            assert(final(self)@ =~= spec_join_game(old(self)@, *conn, pacman@).0);
        }
        Some(addr)
    }

    /// Every known connection identity, each exactly once.
    pub fn get_connections(&self) -> (r: Vec<Connection>)
        requires
            self.well_formed(),
        ensures
            forall|i: int| 0 <= i < r@.len() ==> self@.conns.contains_key(#[trigger] r@[i]),
            forall|c: Connection| #[trigger] self@.conns.contains_key(c) ==> r@.contains(c),
            forall|i: int, j: int| 0 <= i < j < r@.len() ==> r@[i] != r@[j],
    {
        let ghost cs = conns_seq(self.connections@);
        let mut r: Vec<Connection> = Vec::new();
        let mut i: usize = 0;
        while i < self.connections.len()
            invariant
                self.well_formed(),
                cs == conns_seq(self.connections@),
                i <= cs.len(),
                r@.len() == i,
                forall|j: int| 0 <= j < i ==> r@[j] == (#[trigger] cs[j]).0,
            decreases cs.len() - i,
        {
            r.push(self.connections[i].0);
            i += 1;
        }
        proof {
            assert forall|k: int| 0 <= k < r@.len()
                implies self@.conns.contains_key(#[trigger] r@[k]) by {
                lemma_alist_index(cs, k);
            }
            assert forall|c: Connection| #[trigger] self@.conns.contains_key(c)
                implies r@.contains(c) by {
                lemma_alist_dom(cs, c);
                let j = choose|j: int| 0 <= j < cs.len() && (#[trigger] cs[j]).0 == c;
                assert(r@[j] == c);
            }
            assert forall|a: int, b: int| 0 <= a < b < r@.len()
                implies r@[a] != r@[b] by {
                assert(cs[a].0 != cs[b].0);
            }
        }
        r
    }

    /// Every username index entry, each username exactly once.
    pub fn get_users(&self) -> (r: Vec<(String, Connection)>)
        requires
            self.well_formed(),
        ensures
            forall|i: int| 0 <= i < r@.len()
                ==> self@.users.contains_key((#[trigger] r@[i]).0@)
                    && self@.users[r@[i].0@] == r@[i].1,
            forall|u: Seq<char>| #[trigger] self@.users.contains_key(u)
                ==> exists|i: int| 0 <= i < r@.len() && (#[trigger] r@[i]).0@ == u,
            forall|i: int, j: int| 0 <= i < j < r@.len()
                ==> (#[trigger] r@[i]).0@ != (#[trigger] r@[j]).0@,
    {
        let ghost us = users_seq(self.users@);
        let mut r: Vec<(String, Connection)> = Vec::new();
        let mut i: usize = 0;
        while i < self.users.len()
            invariant
                self.well_formed(),
                us == users_seq(self.users@),
                i <= us.len(),
                r@.len() == i,
                forall|j: int| 0 <= j < i
                    ==> ((#[trigger] r@[j]).0@, r@[j].1) == us[j],
            decreases us.len() - i,
        {
            let name = self.users[i].0.clone();
            let conn = self.users[i].1;
            r.push((name, conn));
            i += 1;
        }
        proof {
            assert forall|k: int| 0 <= k < r@.len()
                implies self@.users.contains_key((#[trigger] r@[k]).0@)
                    && self@.users[r@[k].0@] == r@[k].1 by {
                lemma_alist_index(us, k);
            }
            assert forall|u: Seq<char>| #[trigger] self@.users.contains_key(u)
                implies exists|i2: int| 0 <= i2 < r@.len()
                    && (#[trigger] r@[i2]).0@ == u by {
                lemma_alist_dom(us, u);
                let j = choose|j: int| 0 <= j < us.len() && (#[trigger] us[j]).0 == u;
                assert(r@[j].0@ == u);
            }
        }
        r
    }


    /// The username a known session is logged in under, if any.
    pub fn user_of(&self, conn: &Connection) -> (r: Option<String>)
        requires
            self.well_formed(),
        ensures
            match r {
                Some(u) => self@.conns.contains_key(*conn)
                    && self@.conns[*conn].user == Some(u@),
                None => !self@.conns.contains_key(*conn)
                    || self@.conns[*conn].user is None,
            },
    {
        match self.find_conn(conn) {
            None => None,
            Some(i) => match &self.connections[i].1.user {
                None => None,
                Some(u) => Some(u.clone()),
            },
        }
    }

    /// The connected-users listing: one row per logged-in user, annotated
    /// with the user's game status and partner.
    pub fn user_statuses(&self) -> (r: Vec<UserStatusEntry>)
        requires
            self.well_formed(),
        ensures
            forall|i: int| 0 <= i < r@.len()
                ==> user_status_ok((#[trigger] r@[i])@, self@),
            forall|u: Seq<char>| #[trigger] self@.users.contains_key(u)
                ==> exists|i: int| 0 <= i < r@.len() && (#[trigger] r@[i])@.user == u,
            forall|i: int, j: int| 0 <= i < j < r@.len()
                ==> (#[trigger] r@[i])@.user != (#[trigger] r@[j])@.user,
            crate::server_client::wf_user_rows(crate::server_client::user_views(r@)),
    {
        let ghost us = users_seq(self.users@);
        let mut r: Vec<UserStatusEntry> = Vec::new();
        let mut i: usize = 0;
        while i < self.users.len()
            invariant
                self.well_formed(),
                us == users_seq(self.users@),
                i <= us.len(),
                r@.len() == i,
                forall|j: int| 0 <= j < i ==> (#[trigger] r@[j])@.user == us[j].0,
                forall|j: int| 0 <= j < i ==> user_status_ok((#[trigger] r@[j])@, self@),
                forall|j: int| 0 <= j < i
                    ==> crate::server_client::wf_user_entry((#[trigger] r@[j])@),
            decreases us.len() - i,
        {
            proof {
                lemma_alist_index(us, i as int);
            }
            let name = self.users[i].0.clone();
            crate::codec::check_str_fits(name.as_str());
            let conn = self.users[i].1;
            let status: UserGameStatus = match self.find_conn(&conn) {
                None => UserGameStatus::Idle,
                Some(ci) => match self.connections[ci].1.status {
                    GameStatus::Idle => UserGameStatus::Idle,
                    GameStatus::Pacman(_) => {
                        let partner: Option<String> = match self.find_pacman(&name) {
                            None => None,
                            Some(pi) => match &self.pacmans[pi].1 {
                                None => None,
                                Some(g) => Some(g.clone()),
                            },
                        };
                        if let Some(ref g) = partner {
                            crate::codec::check_str_fits(g.as_str());
                        }
                        UserGameStatus::Hosting(partner)
                    },
                    GameStatus::Joined => {
                        let host: String = match self.find_ghost(&name) {
                            None => String::new(),
                            Some(gi) => self.ghosts[gi].1.clone(),
                        };
                        crate::codec::check_str_fits(host.as_str());
                        UserGameStatus::Joined(host)
                    },
                },
            };
            let ghost before = r@;
            r.push(UserStatusEntry { user: name, status });
            proof {
                assert(r@ =~= before.push(UserStatusEntry {
                    user: self.users@[i as int].0,
                    status,
                }));
            }
            i += 1;
        }
        proof {
            assert forall|u: Seq<char>| #[trigger] self@.users.contains_key(u)
                implies exists|i2: int| 0 <= i2 < r@.len()
                    && (#[trigger] r@[i2])@.user == u by {
                lemma_alist_dom(us, u);
                let j = choose|j: int| 0 <= j < us.len() && (#[trigger] us[j]).0 == u;
                assert((r@[j])@.user == u);
            }
        }
        r
    }

    /// The reaper's pass: evicts every session whose heartbeat is older
    /// than the timeout, each eviction cascading like a removal, and hands
    /// back the evicted identities. Sessions still alive survive with
    /// their heartbeat untouched.
    pub fn evict_expired(&mut self, now: u64) -> (removed: Vec<Connection>)
        requires
            old(self).well_formed(),
        ensures
            final(self).well_formed(),
            forall|c: Connection| #[trigger] spec_expired(old(self)@, c, now)
                ==> !final(self)@.conns.contains_key(c),
            forall|c: Connection| old(self)@.conns.contains_key(c)
                && !spec_expired(old(self)@, c, now)
                ==> #[trigger] final(self)@.conns.contains_key(c)
                    && final(self)@.conns[c].last_heartbeat
                        == old(self)@.conns[c].last_heartbeat,
            forall|c: Connection| #[trigger] final(self)@.conns.contains_key(c)
                ==> old(self)@.conns.contains_key(c),
            forall|c: Connection| removed@.contains(c) <==> spec_expired(old(self)@, c, now),
    {
        let ghost v0 = self@;
        let ghost cs = conns_seq(self.connections@);
        let mut expired: Vec<Connection> = Vec::new();
        let mut i: usize = 0;
        while i < self.connections.len()
            invariant
                self.well_formed(),
                cs == conns_seq(self.connections@),
                v0 == self@,
                i <= cs.len(),
                forall|c: Connection| expired@.contains(c) ==> spec_expired(v0, c, now),
                forall|j: int| 0 <= j < i
                    ==> (spec_expired(v0, (#[trigger] cs[j]).0, now)
                        ==> expired@.contains(cs[j].0)),
            decreases cs.len() - i,
        {
            let c = self.connections[i].0;
            let hb = self.connections[i].1.last_heartbeat;
            proof {
                lemma_alist_index(cs, i as int);
            }
            let ghost before = expired@;
            if now > HEARTBEAT_TIMEOUT_MS && hb < now - HEARTBEAT_TIMEOUT_MS {
                expired.push(c);
                proof {
                    assert(expired@ == before.push(c));
                    assert(expired@[before.len() as int] == c);
                    assert(expired@.contains(c));
                    assert forall|c2: Connection| before.contains(c2)
                        implies expired@.contains(c2) by {
                        let k = choose|k: int| 0 <= k < before.len() && before[k] == c2;
                        assert(expired@[k] == c2);
                    }
                }
            }
            proof {
                assert forall|c2: Connection| before.contains(c2)
                    implies expired@.contains(c2) by {
                    let k = choose|k: int| 0 <= k < before.len() && before[k] == c2;
                    assert(expired@[k] == c2);
                }
            }
            i += 1;
        }
        proof {
            assert forall|c: Connection| #[trigger] spec_expired(v0, c, now)
                implies expired@.contains(c) by {
                lemma_alist_dom(cs, c);
                let j = choose|j: int| 0 <= j < cs.len() && (#[trigger] cs[j]).0 == c;
                lemma_alist_index(cs, j);
            }
        }
        let mut k: usize = 0;
        while k < expired.len()
            invariant
                self.well_formed(),
                forall|c: Connection| expired@.contains(c) <==> spec_expired(v0, c, now),
                k <= expired@.len(),
                forall|c: Connection| #[trigger] self@.conns.contains_key(c)
                    ==> v0.conns.contains_key(c)
                        && self@.conns[c].last_heartbeat == v0.conns[c].last_heartbeat,
                forall|c: Connection| v0.conns.contains_key(c)
                    && !expired@.contains(c)
                    ==> #[trigger] self@.conns.contains_key(c),
                forall|j: int| 0 <= j < k ==> !self@.conns.contains_key(
                    #[trigger] expired@[j],
                ),
            decreases expired@.len() - k,
        {
            let c = expired[k];
            proof {
                self.lemma_well_formed();
                lemma_remove_effects(self@, c);
            }
            let _ = self.remove(&c);
            k += 1;
        }
        expired
    }
}


} // verus!
