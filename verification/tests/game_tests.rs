use pacman_net::game::{Game, Pos, BOARD_H, BOARD_W};

#[test]
fn new_game_is_fresh() {
    let g = Game::new();
    assert!(!g.game_over());
    assert_eq!(g.score(), 0);
}

#[test]
fn dir_vec_maps_the_four_keys() {
    assert_eq!(Game::dir_vec('w'), Some((-1, 0)));
    assert_eq!(Game::dir_vec('a'), Some((0, -1)));
    assert_eq!(Game::dir_vec('s'), Some((1, 0)));
    assert_eq!(Game::dir_vec('d'), Some((0, 1)));
    assert_eq!(Game::dir_vec('x'), None);
    assert_eq!(Game::dir_vec('W'), None);
}

#[test]
fn board_wraps_around_every_edge() {
    // north off the top row re-enters on the bottom row, same column
    let p = Game::new_position(Pos { row: 0, col: 7 }, 'w');
    assert_eq!(p, Pos { row: BOARD_H - 1, col: 7 });
    // south off the bottom row re-enters on the top row
    let p = Game::new_position(Pos { row: BOARD_H - 1, col: 7 }, 's');
    assert_eq!(p, Pos { row: 0, col: 7 });
    // west off the first column re-enters on the last
    let p = Game::new_position(Pos { row: 3, col: 0 }, 'a');
    assert_eq!(p, Pos { row: 3, col: BOARD_W - 1 });
    // east off the last column re-enters on the first
    let p = Game::new_position(Pos { row: 3, col: BOARD_W - 1 }, 'd');
    assert_eq!(p, Pos { row: 3, col: 0 });
    // an unknown key does not move
    let p = Game::new_position(Pos { row: 2, col: 2 }, 'q');
    assert_eq!(p, Pos { row: 2, col: 2 });
}

#[test]
fn interior_moves_step_one_cell() {
    let p = Game::new_position(Pos { row: 2, col: 13 }, 'a');
    assert_eq!(p, Pos { row: 2, col: 12 });
    let p = Game::new_position(Pos { row: 2, col: 13 }, 's');
    assert_eq!(p, Pos { row: 3, col: 13 });
}

#[test]
fn pacman_eats_pellets_and_walls_block() {
    let mut g = Game::new();
    // Pacman starts at row 2, column 13 on an empty cell; the cell below
    // holds a pellet
    g.move_pacman('s');
    assert_eq!(g.score(), 1);
    // two more pellets westwards along row 3
    g.move_pacman('a');
    g.move_pacman('a');
    assert_eq!(g.score(), 3);
    // the next cell west is a wall: the move is refused
    g.move_pacman('a');
    assert_eq!(g.score(), 3);
    // still standing at row 3, column 11: the cell above holds a pellet
    g.move_pacman('w');
    assert_eq!(g.score(), 4);
}

/// The moves that walk Pacman from its start to the cell just west of
/// the local ghost, using the bottom-edge wrap as a corridor.
fn path_to_ghost_neighbour() -> Vec<char> {
    vec![
        's', 's', 's', // down through the centre, wrapping to the top row
        'd', 'd', 'd', 'd', // east along the top row
        's', 's', 's', // down the corridor at column 17
        'd', 'd', 'd', 'd', 'd', 'd', // east along row 3 up to column 23
    ]
}

#[test]
fn collision_with_local_ghost_ends_the_game() {
    let mut g = Game::new();
    for d in path_to_ghost_neighbour() {
        assert!(!g.game_over());
        g.move_pacman(d);
    }
    assert!(!g.game_over());
    // one more step east lands on the local ghost's cell
    g.move_pacman('d');
    assert!(g.game_over());
}

#[test]
fn collision_after_ghost_move_also_ends_the_game() {
    let mut g = Game::new();
    for d in path_to_ghost_neighbour() {
        g.move_pacman(d);
    }
    assert!(!g.game_over());
    // now the ghost walks west into Pacman: the ghost's move must set
    // the terminal flag just the same
    g.move_local_ghost('a');
    assert!(g.game_over());
}

#[test]
fn remote_ghost_lifecycle() {
    let mut g = Game::new();
    // without a remote ghost its moves do nothing
    g.move_remote_ghost('d');
    assert!(!g.game_over());
    g.add_remote_ghost();
    // adding twice keeps the first
    g.add_remote_ghost();
    // walk Pacman to the remote ghost at row 3, column 3: down with the
    // wrap, west along the top row, down the corridor at column 9, then
    // west along row 3
    for d in ['s', 's', 's', 'a', 'a', 'a', 'a', 's', 's', 's', 'a', 'a', 'a', 'a', 'a'] {
        assert!(!g.game_over());
        g.move_pacman(d);
    }
    g.move_pacman('a');
    assert!(g.game_over());
    g.remove_remote_ghost();
}

#[test]
fn ghosts_do_not_eat_pellets() {
    let mut g = Game::new();
    // the local ghost at (3,24) walks over pellet cells
    g.move_local_ghost('a');
    g.move_local_ghost('d');
    assert_eq!(g.score(), 0);
    // the cell it left still has its pellet: Pacman scores there later
}

#[test]
fn game_bytes_roundtrip() {
    let mut g = Game::new();
    g.move_pacman('s');
    g.add_remote_ghost();
    g.move_local_ghost('a');
    let bytes = g.to_bytes();
    let back = Game::from_bytes(&bytes).expect("decode failed");
    assert_eq!(back.score(), g.score());
    assert_eq!(back.game_over(), g.game_over());
    assert_eq!(back.to_bytes(), bytes);
}

#[test]
fn game_decode_rejects_noise() {
    assert!(Game::from_bytes(&[]).is_none());
    assert!(Game::from_bytes(&[0u8; 20]).is_none());
    // a full-size buffer of zeros has invalid cells
    assert!(Game::from_bytes(&[0u8; 200]).is_none());
    // truncating a valid image fails
    let g = Game::new();
    let bytes = g.to_bytes();
    assert!(Game::from_bytes(&bytes[..bytes.len() - 1]).is_none());
    // trailing garbage fails
    let mut longer = g.to_bytes();
    longer.push(0);
    assert!(Game::from_bytes(&longer).is_none());
    // an image claiming overlapping pieces without the terminal flag is
    // refused as inconsistent
    let mut h = Game::new();
    h.move_pacman('s');
    let mut img = h.to_bytes();
    let n = img.len();
    // force the pacman position onto the local ghost and clear `ended`
    img[135] = 3;
    img[136] = 24;
    img[n - 1] = 0;
    assert!(Game::from_bytes(&img).is_none());
}

#[test]
fn show_overlays_the_pieces() {
    let mut g = Game::new();
    g.add_remote_ghost();
    let picture = g.show();
    assert_eq!(picture.len(), 135);
    // Pacman at row 2 column 13, local ghost at row 3 column 24, remote
    // ghost at row 3 column 3
    assert_eq!(picture[2 * 27 + 13], b'P');
    assert_eq!(picture[3 * 27 + 24], b'F');
    assert_eq!(picture[3 * 27 + 3], b'f');
    // an untouched cell shows the board byte
    assert_eq!(picture[0], b'*');
    assert_eq!(picture[6], b'.');
}
