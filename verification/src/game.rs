//! The game board: a fixed grid with wrap-around movement, one Pacman, one
//! locally simulated ghost, an optional remote ghost, pellets that convert
//! to score, and a terminal flag set when Pacman shares a cell with either
//! ghost. A board crosses the peer-to-peer stream once per turn, so it also
//! carries its own byte codec.

use vstd::prelude::*;
use crate::codec::{
    enc_u8, enc_u64, dec_u8, dec_u64,
    lemma_dec_u8, lemma_dec_u64, lemma_slice_len_bound,
    put_u8, put_u64, get_u8, get_u64,
};

verus! {

/// Board height in rows.
pub const BOARD_H: usize = 5;

/// Board width in columns.
pub const BOARD_W: usize = 27;

/// Cell holding a wall: movement into it is refused.
pub const WALL: u8 = 42;

/// Cell holding a pellet: Pacman clears it and scores.
pub const PACDOT: u8 = 46;

/// Cleared cell.
pub const EMPTY: u8 = 32;

/// A cell coordinate: row then column.
#[derive(Clone, Copy, Debug, PartialEq, Eq, Structural)]
pub struct Pos {
    pub row: usize,
    pub col: usize,
}

/// A playing field with its pieces. The board is stored row-major,
/// `BOARD_H * BOARD_W` cells.
#[derive(Clone, Debug)]
pub struct Game {
    board: Vec<u8>,
    pacman: Pos,
    score: u64,
    local_ghost: Pos,
    remote_ghost: Option<Pos>,
    ended: bool,
}

/// The mathematical value of a game.
pub struct GameV {
    pub board: Seq<u8>,
    pub pacman: Pos,
    pub score: u64,
    pub local_ghost: Pos,
    pub remote_ghost: Option<Pos>,
    pub ended: bool,
}

impl View for Game {
    type V = GameV;

    closed spec fn view(&self) -> GameV {
        GameV {
            board: self.board@,
            pacman: self.pacman,
            score: self.score,
            local_ghost: self.local_ghost,
            remote_ghost: self.remote_ghost,
            ended: self.ended,
        }
    }
}

pub open spec fn pos_in_range(p: Pos) -> bool {
    p.row < BOARD_H && p.col < BOARD_W
}

/// Pacman shares a cell with the local ghost or with a present remote ghost.
pub open spec fn collided(g: GameV) -> bool {
    g.pacman == g.local_ghost || (match g.remote_ghost {
        Some(rg) => g.pacman == rg,
        None => false,
    })
}

/// A well-formed game: full board of known cells, pieces on the board, and
/// the terminal flag set whenever pieces already overlap.
pub open spec fn wf_game(g: GameV) -> bool {
    &&& g.board.len() == BOARD_H * BOARD_W
    &&& forall|i: int| 0 <= i < g.board.len()
        ==> #[trigger] g.board[i] == WALL || g.board[i] == PACDOT || g.board[i] == EMPTY
    &&& pos_in_range(g.pacman)
    &&& pos_in_range(g.local_ghost)
    &&& (match g.remote_ghost {
        Some(rg) => pos_in_range(rg),
        None => true,
    })
    &&& (collided(g) ==> g.ended)
}

// ---------------------------------------------------------------------------
// Movement
// ---------------------------------------------------------------------------

/// The (row, column) delta one of the four movement keys stands for.
pub open spec fn spec_dir_vec(dir: char) -> Option<(int, int)> {
    if dir == 'w' {
        Some((-1int, 0int))
    } else if dir == 'a' {
        Some((0int, -1int))
    } else if dir == 's' {
        Some((1int, 0int))
    } else if dir == 'd' {
        Some((0int, 1int))
    } else {
        None
    }
}

/// One step from `p` in direction `dir`, wrapping around every board edge;
/// an unknown key does not move.
pub open spec fn spec_new_position(p: Pos, dir: char) -> (int, int) {
    match spec_dir_vec(dir) {
        None => (p.row as int, p.col as int),
        Some((dx, dy)) => (
            (p.row + dx + BOARD_H) % (BOARD_H as int),
            (p.col + dy + BOARD_W) % (BOARD_W as int),
        ),
    }
}

/// Sets the terminal flag if Pacman shares a cell with either ghost.
pub open spec fn spec_update_game_state(g: GameV) -> GameV {
    GameV { ended: g.ended || collided(g), ..g }
}

/// Pacman's move: refused into a wall; a pellet adds one point (saturating)
/// and clears the cell; then the terminal check runs.
pub open spec fn spec_move_pacman(g: GameV, dir: char) -> GameV {
    let (nx, ny) = spec_new_position(g.pacman, dir);
    let cell = g.board[nx * BOARD_W + ny];
    if cell == WALL {
        g
    } else {
        let g1 = if cell == PACDOT {
            GameV {
                score: if g.score == u64::MAX { u64::MAX } else { (g.score + 1) as u64 },
                board: g.board.update(nx * BOARD_W + ny, EMPTY),
                ..g
            }
        } else {
            g
        };
        spec_update_game_state(
            GameV { pacman: (Pos { row: nx as usize, col: ny as usize }), ..g1 },
        )
    }
}

/// The local ghost's move: refused into a wall, pellets untouched, then the
/// terminal check runs.
pub open spec fn spec_move_local_ghost(g: GameV, dir: char) -> GameV {
    let (nx, ny) = spec_new_position(g.local_ghost, dir);
    let cell = g.board[nx * BOARD_W + ny];
    if cell == WALL {
        g
    } else {
        spec_update_game_state(
            GameV { local_ghost: (Pos { row: nx as usize, col: ny as usize }), ..g },
        )
    }
}

/// The remote ghost's move: nothing happens while no remote ghost is
/// present; otherwise as the local ghost.
pub open spec fn spec_move_remote_ghost(g: GameV, dir: char) -> GameV {
    match g.remote_ghost {
        None => g,
        Some(rg) => {
            let (nx, ny) = spec_new_position(rg, dir);
            let cell = g.board[nx * BOARD_W + ny];
            if cell == WALL {
                g
            } else {
                spec_update_game_state(
                    GameV { remote_ghost: Some(Pos { row: nx as usize, col: ny as usize }), ..g },
                )
            }
        },
    }
}

// ---------------------------------------------------------------------------
// The initial board
// ---------------------------------------------------------------------------

/// `n` copies of the byte `b`.
pub open spec fn rep(b: u8, n: nat) -> Seq<u8> {
    Seq::new(n, |i: int| b)
}

pub open spec fn initial_row_0() -> Seq<u8> {
    rep(WALL, 6) + rep(PACDOT, 1) + rep(WALL, 2) + rep(PACDOT, 3) + rep(EMPTY, 1)
        + rep(PACDOT, 5) + rep(WALL, 2) + rep(PACDOT, 1) + rep(WALL, 6)
}

pub open spec fn initial_row_1() -> Seq<u8> {
    rep(WALL, 6) + rep(PACDOT, 1) + rep(WALL, 2) + rep(PACDOT, 1) + rep(WALL, 7)
        + rep(PACDOT, 1) + rep(WALL, 2) + rep(PACDOT, 1) + rep(WALL, 6)
}

pub open spec fn initial_row_2() -> Seq<u8> {
    rep(WALL, 6) + rep(PACDOT, 1) + rep(WALL, 2) + rep(PACDOT, 1) + rep(WALL, 1)
        + rep(PACDOT, 2) + rep(EMPTY, 1) + rep(PACDOT, 2) + rep(WALL, 1) + rep(PACDOT, 1)
        + rep(WALL, 2) + rep(PACDOT, 1) + rep(WALL, 6)
}

pub open spec fn initial_row_3() -> Seq<u8> {
    rep(PACDOT, 5) + rep(EMPTY, 1) + rep(PACDOT, 4) + rep(WALL, 1) + rep(PACDOT, 5)
        + rep(WALL, 1) + rep(PACDOT, 10)
}

/// The full starting board, row-major.
pub open spec fn initial_board() -> Seq<u8> {
    initial_row_0() + initial_row_1() + initial_row_2() + initial_row_3() + initial_row_2()
}

/// Appends `n` copies of `b` to the board under construction.
fn push_run(out: &mut Vec<u8>, b: u8, n: usize)
    ensures
        final(out)@ == old(out)@ + rep(b, n as nat),
    decreases n,
{
    let mut i: usize = 0;
    while i < n
        invariant
            i <= n,
            out@ == old(out)@ + rep(b, i as nat),
        decreases n - i,
    {
        out.push(b);
        proof {
            assert(old(out)@ + rep(b, i as nat) + seq![b] =~= old(out)@ + rep(b, (i + 1) as nat));
        }
        i += 1;
    }
}

impl Game {
    /// A fresh game: the fixed starting board, Pacman and the local ghost on
    /// their starting cells, no remote ghost, score zero, not ended.
    pub fn new() -> (g: Game)
        ensures
            wf_game(g@),
            g@.board == initial_board(),
            g@.pacman == (Pos { row: 2, col: 13 }),
            g@.local_ghost == (Pos { row: 3, col: 24 }),
            g@.remote_ghost is None,
            g@.score == 0,
            !g@.ended,
    {
        let mut board: Vec<u8> = Vec::new();
        // Row 0
        push_run(&mut board, WALL, 6);
        push_run(&mut board, PACDOT, 1);
        push_run(&mut board, WALL, 2);
        push_run(&mut board, PACDOT, 3);
        push_run(&mut board, EMPTY, 1);
        push_run(&mut board, PACDOT, 5);
        push_run(&mut board, WALL, 2);
        push_run(&mut board, PACDOT, 1);
        push_run(&mut board, WALL, 6);
        proof {
            assert(board@ =~= initial_row_0());
        }
        // Row 1
        push_run(&mut board, WALL, 6);
        push_run(&mut board, PACDOT, 1);
        push_run(&mut board, WALL, 2);
        push_run(&mut board, PACDOT, 1);
        push_run(&mut board, WALL, 7);
        push_run(&mut board, PACDOT, 1);
        push_run(&mut board, WALL, 2);
        push_run(&mut board, PACDOT, 1);
        push_run(&mut board, WALL, 6);
        proof {
            assert(board@ =~= initial_row_0() + initial_row_1());
        }
        // Row 2
        push_run(&mut board, WALL, 6);
        push_run(&mut board, PACDOT, 1);
        push_run(&mut board, WALL, 2);
        push_run(&mut board, PACDOT, 1);
        push_run(&mut board, WALL, 1);
        push_run(&mut board, PACDOT, 2);
        push_run(&mut board, EMPTY, 1);
        push_run(&mut board, PACDOT, 2);
        push_run(&mut board, WALL, 1);
        push_run(&mut board, PACDOT, 1);
        push_run(&mut board, WALL, 2);
        push_run(&mut board, PACDOT, 1);
        push_run(&mut board, WALL, 6);
        proof {
            assert(board@ =~= initial_row_0() + initial_row_1() + initial_row_2());
        }
        // Row 3
        push_run(&mut board, PACDOT, 5);
        push_run(&mut board, EMPTY, 1);
        push_run(&mut board, PACDOT, 4);
        push_run(&mut board, WALL, 1);
        push_run(&mut board, PACDOT, 5);
        push_run(&mut board, WALL, 1);
        push_run(&mut board, PACDOT, 10);
        proof {
            assert(board@ =~= initial_row_0() + initial_row_1() + initial_row_2()
                + initial_row_3());
        }
        // Row 4 repeats row 2
        push_run(&mut board, WALL, 6);
        push_run(&mut board, PACDOT, 1);
        push_run(&mut board, WALL, 2);
        push_run(&mut board, PACDOT, 1);
        push_run(&mut board, WALL, 1);
        push_run(&mut board, PACDOT, 2);
        push_run(&mut board, EMPTY, 1);
        push_run(&mut board, PACDOT, 2);
        push_run(&mut board, WALL, 1);
        push_run(&mut board, PACDOT, 1);
        push_run(&mut board, WALL, 2);
        push_run(&mut board, PACDOT, 1);
        push_run(&mut board, WALL, 6);
        proof {
            assert(board@ =~= initial_board());
            lemma_initial_board_cells();
        }
        Game {
            board,
            pacman: Pos { row: 2, col: 13 },
            score: 0,
            local_ghost: Pos { row: 3, col: 24 },
            remote_ghost: None,
            ended: false,
        }
    }


    /// An equal copy of this game.
    pub fn duplicate(&self) -> (g: Game)
        ensures
            g@ == self@,
    {
        let mut board: Vec<u8> = Vec::new();
        let mut i: usize = 0;
        while i < self.board.len()
            invariant
                i <= self.board@.len(),
                board@ == self.board@.subrange(0, i as int),
            decreases self.board@.len() - i,
        {
            board.push(self.board[i]);
            proof {
                assert(board@ =~= self.board@.subrange(0, i + 1));
            }
            i += 1;
        }
        proof {
            assert(board@ =~= self.board@);
        }
        Game {
            board,
            pacman: self.pacman,
            score: self.score,
            local_ghost: self.local_ghost,
            remote_ghost: self.remote_ghost,
            ended: self.ended,
        }
    }


    /// The current picture, row-major: the board with Pacman drawn as
    /// `P`, the local ghost as `F` and the remote ghost as `f`.
    pub fn show(&self) -> (r: Vec<u8>)
        requires
            wf_game(self@),
        ensures
            r@ == spec_show(self@),
    {
        let mut out: Vec<u8> = Vec::new();
        let mut i: usize = 0;
        let pac = self.pacman.row * BOARD_W + self.pacman.col;
        let lg = self.local_ghost.row * BOARD_W + self.local_ghost.col;
        let rg: Option<usize> = match self.remote_ghost {
            Some(p) => Some(p.row * BOARD_W + p.col),
            None => None,
        };
        while i < self.board.len()
            invariant
                wf_game(self@),
                pac == self@.pacman.row * BOARD_W + self@.pacman.col,
                lg == self@.local_ghost.row * BOARD_W + self@.local_ghost.col,
                rg == (match self@.remote_ghost {
                    Some(p) => Some((p.row * BOARD_W + p.col) as usize),
                    None => None::<usize>,
                }),
                i <= self.board@.len(),
                out@ == spec_show(self@).take(i as int),
            decreases self.board@.len() - i,
        {
            let cell = if i == pac {
                80
            } else if i == lg {
                70
            } else if rg == Some(i) {
                102
            } else {
                self.board[i]
            };
            out.push(cell);
            proof {
                assert(out@ =~= spec_show(self@).take(i + 1));
            }
            i += 1;
        }
        proof {
            assert(out@ =~= spec_show(self@));
        }
        out
    }

    /// Whether the game has reached its terminal state.
    pub fn game_over(&self) -> (r: bool)
        ensures
            r == self@.ended,
    {
        self.ended
    }

    /// The current score.
    pub fn score(&self) -> (r: u64)
        ensures
            r == self@.score,
    {
        self.score
    }

    /// The delta a movement key stands for, if it is one of the four keys.
    pub fn dir_vec(dir: char) -> (r: Option<(i8, i8)>)
        ensures
            match r {
                Some((dx, dy)) => spec_dir_vec(dir) == Some((dx as int, dy as int)),
                None => spec_dir_vec(dir) is None,
            },
    {
        if dir == 'w' {
            Some((-1, 0))
        } else if dir == 'a' {
            Some((0, -1))
        } else if dir == 's' {
            Some((1, 0))
        } else if dir == 'd' {
            Some((0, 1))
        } else {
            None
        }
    }

    /// One wrapping step from `p` in direction `dir`.
    pub fn new_position(p: Pos, dir: char) -> (r: Pos)
        requires
            pos_in_range(p),
        ensures
            (r.row as int, r.col as int) == spec_new_position(p, dir),
            pos_in_range(r),
    {
        let x = p.row;
        let y = p.col;
        if dir == 'w' {
            Pos { row: if x == 0 { BOARD_H - 1 } else { x - 1 }, col: y }
        } else if dir == 'a' {
            Pos { row: x, col: if y == 0 { BOARD_W - 1 } else { y - 1 } }
        } else if dir == 's' {
            Pos { row: if x == BOARD_H - 1 { 0 } else { x + 1 }, col: y }
        } else if dir == 'd' {
            Pos { row: x, col: if y == BOARD_W - 1 { 0 } else { y + 1 } }
        } else {
            p
        }
    }

    /// Runs the terminal check: collision sets the flag.
    pub fn update_game_state(&mut self)
        ensures
            final(self)@ == spec_update_game_state(old(self)@),
    {
        if self.pacman == self.local_ghost {
            self.ended = true;
        }
        if let Some(remote_ghost) = self.remote_ghost {
            if self.pacman == remote_ghost {
                self.ended = true;
            }
        }
    }

    /// Applies Pacman's move for one of the four movement keys; any other
    /// key leaves the game unchanged.
    pub fn move_pacman(&mut self, dir: char)
        requires
            wf_game(old(self)@),
        ensures
            final(self)@ == spec_move_pacman(old(self)@, dir),
            wf_game(final(self)@),
    {
        let np = Self::new_position(self.pacman, dir);
        let idx = np.row * BOARD_W + np.col;
        let cell = self.board[idx];
        if cell == WALL {
            return;
        }
        if cell == PACDOT {
            if self.score < u64::MAX {
                self.score = self.score + 1;
            }
            self.board[idx] = EMPTY;
        }
        self.pacman = np;
        self.update_game_state();
    }

    /// Applies the local ghost's move.
    pub fn move_local_ghost(&mut self, dir: char)
        requires
            wf_game(old(self)@),
        ensures
            final(self)@ == spec_move_local_ghost(old(self)@, dir),
            wf_game(final(self)@),
    {
        let np = Self::new_position(self.local_ghost, dir);
        let idx = np.row * BOARD_W + np.col;
        let cell = self.board[idx];
        if cell == WALL {
            return;
        }
        self.local_ghost = np;
        self.update_game_state();
    }

    /// Applies the remote ghost's move; without a remote ghost nothing
    /// happens.
    pub fn move_remote_ghost(&mut self, dir: char)
        requires
            wf_game(old(self)@),
        ensures
            final(self)@ == spec_move_remote_ghost(old(self)@, dir),
            wf_game(final(self)@),
    {
        let rg = match self.remote_ghost {
            None => {
                return;
            },
            Some(rg) => rg,
        };
        let np = Self::new_position(rg, dir);
        let idx = np.row * BOARD_W + np.col;
        let cell = self.board[idx];
        if cell == WALL {
            return;
        }
        self.remote_ghost = Some(np);
        self.update_game_state();
    }

    /// Puts the remote ghost on its starting cell if none is present yet.
    pub fn add_remote_ghost(&mut self)
        requires
            wf_game(old(self)@),
        ensures
            old(self)@.remote_ghost is Some ==> *final(self) == *old(self),
            old(self)@.remote_ghost is None ==> final(self)@ == (GameV {
                remote_ghost: Some(Pos { row: 3, col: 3 }),
                ended: old(self)@.ended || old(self)@.pacman == (Pos { row: 3, col: 3 }),
                ..old(self)@
            }),
            wf_game(final(self)@),
    {
        if self.remote_ghost.is_none() {
            self.remote_ghost = Some(Pos { row: 3, col: 3 });
            self.update_game_state();
        }
    }

    /// Takes the remote ghost off the board.
    pub fn remove_remote_ghost(&mut self)
        ensures
            final(self)@ == (GameV { remote_ghost: None, ..old(self)@ }),
    {
        self.remote_ghost = None;
    }
}


// ---------------------------------------------------------------------------
// Laws of movement
// ---------------------------------------------------------------------------

/// Moving off any edge of the grid re-enters from the opposite edge:
/// north from the top row lands on the bottom row in the same column, and
/// symmetrically for the other three edges.
pub proof fn lemma_board_wrap_around(p: Pos)
    requires
        pos_in_range(p),
    ensures
        p.row == 0 ==> spec_new_position(p, 'w') == (((BOARD_H - 1) as int, p.col as int)),
        p.row == BOARD_H - 1 ==> spec_new_position(p, 's') == ((0int, p.col as int)),
        p.col == 0 ==> spec_new_position(p, 'a') == ((p.row as int, (BOARD_W - 1) as int)),
        p.col == BOARD_W - 1 ==> spec_new_position(p, 'd') == ((p.row as int, 0int)),
{
}

/// Pacman standing on the same cell as either ghost leaves the game ended,
/// whichever of the three pieces made the most recent move.
pub proof fn lemma_game_over_symmetry(g: GameV, dir: char)
    requires
        wf_game(g),
    ensures
        collided(spec_move_pacman(g, dir)) ==> spec_move_pacman(g, dir).ended,
        collided(spec_move_local_ghost(g, dir)) ==> spec_move_local_ghost(g, dir).ended,
        collided(spec_move_remote_ghost(g, dir)) ==> spec_move_remote_ghost(g, dir).ended,
{
}

// ---------------------------------------------------------------------------
// The board codec: one serialized game state crosses the peer stream per
// turn.
// ---------------------------------------------------------------------------

/// Every cell is a wall, a pellet or empty.
pub open spec fn valid_cells(s: Seq<u8>) -> bool {
    forall|i: int| 0 <= i < s.len()
        ==> #[trigger] s[i] == WALL || s[i] == PACDOT || s[i] == EMPTY
}

pub open spec fn enc_opt_pos(p: Option<Pos>) -> Seq<u8> {
    match p {
        None => enc_u8(0),
        Some(q) => enc_u8(1) + enc_u8(q.row as u8) + enc_u8(q.col as u8),
    }
}

pub open spec fn enc_game(g: GameV) -> Seq<u8> {
    g.board + enc_u8(g.pacman.row as u8) + enc_u8(g.pacman.col as u8) + enc_u64(g.score)
        + enc_u8(g.local_ghost.row as u8) + enc_u8(g.local_ghost.col as u8)
        + enc_opt_pos(g.remote_ghost) + enc_u8(if g.ended { 1 } else { 0 })
}

pub open spec fn dec_pos(b: Seq<u8>, i: int) -> Option<(Pos, int)> {
    match dec_u8(b, i) {
        None => None,
        Some((r, j)) => match dec_u8(b, j) {
            None => None,
            Some((c, k)) => {
                if r < BOARD_H && c < BOARD_W {
                    Some((Pos { row: r as usize, col: c as usize }, k))
                } else {
                    None
                }
            },
        },
    }
}

pub open spec fn dec_opt_pos(b: Seq<u8>, i: int) -> Option<(Option<Pos>, int)> {
    match dec_u8(b, i) {
        None => None,
        Some((t, j)) => {
            if t == 0 {
                Some((None, j))
            } else if t == 1 {
                match dec_pos(b, j) {
                    None => None,
                    Some((p, k)) => Some((Some(p), k)),
                }
            } else {
                None
            }
        },
    }
}

pub open spec fn dec_game(b: Seq<u8>, i: int) -> Option<(GameV, int)> {
    if !(0 <= i && i + 135 <= b.len()) {
        None
    } else {
        let board = b.subrange(i, i + 135);
        if !valid_cells(board) {
            None
        } else {
            match dec_pos(b, i + 135) {
                None => None,
                Some((pacman, j)) => match dec_u64(b, j) {
                    None => None,
                    Some((score, k)) => match dec_pos(b, k) {
                        None => None,
                        Some((local_ghost, l)) => match dec_opt_pos(b, l) {
                            None => None,
                            Some((remote_ghost, m)) => match dec_u8(b, m) {
                                None => None,
                                Some((e, n)) => {
                                    if e > 1 {
                                        None
                                    } else {
                                        let g = GameV {
                                            board,
                                            pacman,
                                            score,
                                            local_ghost,
                                            remote_ghost,
                                            ended: e == 1,
                                        };
                                        if collided(g) && !g.ended {
                                            None
                                        } else {
                                            Some((g, n))
                                        }
                                    }
                                },
                            },
                        },
                    },
                },
            }
        }
    }
}

proof fn lemma_dec_pos(pre: Seq<u8>, p: Pos, suf: Seq<u8>)
    requires
        pos_in_range(p),
    ensures
        dec_pos(pre + (enc_u8(p.row as u8) + enc_u8(p.col as u8)) + suf, pre.len() as int)
            == Some((p, pre.len() + 2int)),
{
    let r = p.row as u8;
    let c = p.col as u8;
    assert(pre + (enc_u8(r) + enc_u8(c)) + suf =~= pre + enc_u8(r) + (enc_u8(c) + suf));
    lemma_dec_u8(pre, r, enc_u8(c) + suf);
    assert(pre + enc_u8(r) + (enc_u8(c) + suf) =~= (pre + enc_u8(r)) + enc_u8(c) + suf);
    lemma_dec_u8(pre + enc_u8(r), c, suf);
}

proof fn lemma_dec_opt_pos(pre: Seq<u8>, p: Option<Pos>, suf: Seq<u8>)
    requires
        match p {
            Some(q) => pos_in_range(q),
            None => true,
        },
    ensures
        dec_opt_pos(pre + enc_opt_pos(p) + suf, pre.len() as int)
            == Some((p, pre.len() + enc_opt_pos(p).len() as int)),
{
    match p {
        None => {
            assert(pre + enc_opt_pos(p) + suf =~= pre + enc_u8(0) + suf);
            lemma_dec_u8(pre, 0, suf);
        },
        Some(q) => {
            let pay = enc_u8(q.row as u8) + enc_u8(q.col as u8);
            assert(pre + enc_opt_pos(p) + suf =~= pre + enc_u8(1) + (pay + suf));
            lemma_dec_u8(pre, 1, pay + suf);
            assert(pre + enc_u8(1) + (pay + suf) =~= (pre + enc_u8(1)) + pay + suf);
            lemma_dec_pos(pre + enc_u8(1), q, suf);
        },
    }
}

/// Decoding an encoded game yields the game back.
pub proof fn lemma_dec_game(g: GameV)
    requires
        wf_game(g),
    ensures
        dec_game(enc_game(g), 0) == Some((g, enc_game(g).len() as int)),
{
    let b = enc_game(g);
    let t1 = enc_u8(g.pacman.row as u8) + enc_u8(g.pacman.col as u8);
    let t2 = enc_u64(g.score);
    let t3 = enc_u8(g.local_ghost.row as u8) + enc_u8(g.local_ghost.col as u8);
    let t4 = enc_opt_pos(g.remote_ghost);
    let t5 = enc_u8(if g.ended { 1 } else { 0 });
    assert(b.subrange(0, 135) =~= g.board);
    assert(b =~= g.board + t1 + (t2 + (t3 + (t4 + t5))));
    lemma_dec_pos(g.board, g.pacman, t2 + (t3 + (t4 + t5)));
    assert(g.board + t1 + (t2 + (t3 + (t4 + t5))) =~= (g.board + t1) + t2 + (t3 + (t4 + t5)));
    lemma_dec_u64(g.board + t1, g.score, t3 + (t4 + t5));
    assert((g.board + t1) + t2 + (t3 + (t4 + t5)) =~= ((g.board + t1) + t2) + t3 + (t4 + t5));
    lemma_dec_pos((g.board + t1) + t2, g.local_ghost, t4 + t5);
    assert(((g.board + t1) + t2) + t3 + (t4 + t5)
        =~= (((g.board + t1) + t2) + t3) + t4 + t5);
    lemma_dec_opt_pos(((g.board + t1) + t2) + t3, g.remote_ghost, t5);
    assert((((g.board + t1) + t2) + t3) + t4 + t5
        =~= ((((g.board + t1) + t2) + t3) + t4) + t5 + Seq::<u8>::empty());
    lemma_dec_u8((((g.board + t1) + t2) + t3) + t4, if g.ended { 1 } else { 0 },
        Seq::<u8>::empty());
}

impl Game {
    /// The byte image of this game, for the peer stream.
    pub fn to_bytes(&self) -> (r: Vec<u8>)
        requires
            wf_game(self@),
        ensures
            r@ == enc_game(self@),
    {
        let mut out: Vec<u8> = Vec::new();
        let mut i: usize = 0;
        while i < self.board.len()
            invariant
                i <= self.board@.len(),
                out@ == self.board@.subrange(0, i as int),
            decreases self.board@.len() - i,
        {
            out.push(self.board[i]);
            proof {
                assert(out@ =~= self.board@.subrange(0, i + 1));
            }
            i += 1;
        }
        proof {
            assert(out@ =~= self.board@);
        }
        put_u8(&mut out, self.pacman.row as u8);
        put_u8(&mut out, self.pacman.col as u8);
        put_u64(&mut out, self.score);
        put_u8(&mut out, self.local_ghost.row as u8);
        put_u8(&mut out, self.local_ghost.col as u8);
        match self.remote_ghost {
            None => put_u8(&mut out, 0),
            Some(q) => {
                put_u8(&mut out, 1);
                put_u8(&mut out, q.row as u8);
                put_u8(&mut out, q.col as u8);
            },
        }
        put_u8(&mut out, if self.ended { 1 } else { 0 });
        proof {
            assert(out@ =~= enc_game(self@));
        }
        out
    }

    /// Decodes a game from the peer stream, refusing any byte image that
    /// does not stand for a well-formed game that fills the buffer.
    pub fn from_bytes(b: &[u8]) -> (r: Option<Game>)
        ensures
            match r {
                Some(g) => {
                    &&& dec_game(b@, 0) matches Some((v, j)) && g@ == v && j == b@.len()
                    &&& wf_game(g@)
                },
                None => !(dec_game(b@, 0) matches Some((v, j)) && j == b@.len()),
            },
    {
        proof { lemma_slice_len_bound(b); }
        if b.len() < 135 {
            return None;
        }
        let cells = vstd::slice::slice_subrange(b, 0, 135);
        let mut k: usize = 0;
        while k < 135
            invariant
                k <= 135,
                cells@ == b@.subrange(0, 135),
                b@.len() >= 135,
                forall|q: int| 0 <= q < k
                    ==> #[trigger] cells@[q] == WALL || cells@[q] == PACDOT
                        || cells@[q] == EMPTY,
            decreases 135 - k,
        {
            let cell = *vstd::slice::slice_index_get(cells, k);
            if cell != WALL && cell != PACDOT && cell != EMPTY {
                return None;
            }
            k += 1;
        }
        let board = vstd::slice::slice_to_vec(cells);
        let pacman = match Self::get_pos(b, 135) {
            None => {
                return None;
            },
            Some(p) => p,
        };
        let (score, j1) = match get_u64(b, 137) {
            None => {
                return None;
            },
            Some(x) => x,
        };
        let local_ghost = match Self::get_pos(b, j1) {
            None => {
                return None;
            },
            Some(p) => p,
        };
        let j2 = j1 + 2;
        let (remote_ghost, j3): (Option<Pos>, usize) = match get_u8(b, j2) {
            None => {
                return None;
            },
            Some((t, j)) => {
                if t == 0 {
                    (None, j)
                } else if t == 1 {
                    match Self::get_pos(b, j) {
                        None => {
                            return None;
                        },
                        Some(p) => (Some(p), j + 2),
                    }
                } else {
                    return None;
                }
            },
        };
        let (ended_byte, j4) = match get_u8(b, j3) {
            None => {
                return None;
            },
            Some(x) => x,
        };
        if ended_byte > 1 {
            return None;
        }
        let g = Game {
            board,
            pacman,
            score,
            local_ghost,
            remote_ghost,
            ended: ended_byte == 1,
        };
        let mut coll = g.pacman == g.local_ghost;
        if let Some(rg) = g.remote_ghost {
            if g.pacman == rg {
                coll = true;
            }
        }
        if coll && !g.ended {
            return None;
        }
        if j4 != b.len() {
            return None;
        }
        Some(g)
    }

    /// Reads one position: two bytes, each checked against the board size.
    fn get_pos(b: &[u8], pos: usize) -> (r: Option<Pos>)
        ensures
            dec_pos(b@, pos as int) matches Some((v, j))
                ==> r == Some(v) && j == pos + 2,
            dec_pos(b@, pos as int) is None ==> r is None,
    {
        proof { lemma_slice_len_bound(b); }
        match get_u8(b, pos) {
            None => None,
            Some((r0, j)) => match get_u8(b, j) {
                None => None,
                Some((c0, _k)) => {
                    if (r0 as usize) < BOARD_H && (c0 as usize) < BOARD_W {
                        Some(Pos { row: r0 as usize, col: c0 as usize })
                    } else {
                        None
                    }
                },
            },
        }
    }
}


/// The picture of a game: the board with the pieces drawn over it,
/// Pacman as `P`, the local ghost as `F`, the remote ghost as `f`.
pub open spec fn spec_show(g: GameV) -> Seq<u8> {
    Seq::new(
        g.board.len(),
        |i: int| {
            if i == g.pacman.row * BOARD_W + g.pacman.col {
                80u8
            } else if i == g.local_ghost.row * BOARD_W + g.local_ghost.col {
                70u8
            } else if (match g.remote_ghost {
                Some(rg) => i == rg.row * BOARD_W + rg.col,
                None => false,
            }) {
                102u8
            } else {
                g.board[i]
            }
        },
    )
}

/// Every cell of the starting board is a wall, a pellet or empty, and the
/// board fills the grid.
pub proof fn lemma_initial_board_cells()
    ensures
        initial_board().len() == BOARD_H * BOARD_W,
        forall|i: int| 0 <= i < initial_board().len()
            ==> #[trigger] initial_board()[i] == WALL || initial_board()[i] == PACDOT
                || initial_board()[i] == EMPTY,
        initial_board()[2 * BOARD_W + 13] == EMPTY,
        initial_board()[3 * BOARD_W + 24] == PACDOT,
{
    assert forall|i: int| 0 <= i < initial_board().len()
        implies #[trigger] initial_board()[i] == WALL || initial_board()[i] == PACDOT
            || initial_board()[i] == EMPTY by {
        assert(initial_board().len() == 135);
    }
    assert(initial_board()[2 * BOARD_W + 13] == EMPTY);
    assert(initial_board()[3 * BOARD_W + 24] == PACDOT);
}

} // verus!
