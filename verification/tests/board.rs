use gol::board::{Board, State};

fn dead_board(width: usize, height: usize) -> Board {
    Board::build(width, height, 0)
}

#[test]
fn dead_state() {
    // dead state stays dead
    let b1 = Board::build(3, 3, 0);
    let b2 = b1.next_board_state();
    assert_eq!(b1.compare_boards(&b2), true);
}

#[test]
fn some_state() {
    // cell with exact 3 neighbours should become alive
    let mut b1 = Board::build(5, 5, 0);
    b1.data[0] = State::Alive;
    b1.data[5] = State::Alive;
    b1.data[6] = State::Alive;

    let b2 = b1.next_board_state();

    let mut b2_actual = Board::build(5, 5, 0);
    b2_actual.data[0] = State::Alive;
    b2_actual.data[1] = State::Alive;
    b2_actual.data[5] = State::Alive;
    b2_actual.data[6] = State::Alive;
    assert_eq!(b2_actual.compare_boards(&b2), true);
}

#[test]
fn birth_is_exact() {
    // the L-shape births exactly cell 1 and keeps 0, 5, 6: no other cell
    // of the 5x5 grid is alive afterwards
    let mut b1 = dead_board(5, 5);
    b1.data[0] = State::Alive;
    b1.data[5] = State::Alive;
    b1.data[6] = State::Alive;
    let b2 = b1.next_board_state();
    for k in 0..25 {
        let expect_alive = k == 0 || k == 1 || k == 5 || k == 6;
        assert_eq!(b2.data[k] == State::Alive, expect_alive);
    }
}

#[test]
fn all_dead_fixed_point_various_sizes() {
    for &(w, h) in &[(1, 1), (1, 4), (4, 1), (2, 3), (7, 5), (10, 10)] {
        let b1 = dead_board(w, h);
        let b2 = b1.next_board_state();
        assert_eq!(b1.compare_boards(&b2), true);
        assert_eq!(b2.width, w);
        assert_eq!(b2.height, h);
    }
}

#[test]
fn wrap_counts_opposite_corner() {
    // only the bottom-right cell is alive: the top-left cell must see it
    // as a diagonal neighbour through the wrap
    let mut b = dead_board(6, 4);
    b.data[3 * 6 + 5] = State::Alive;
    assert_eq!(b.num_alive_neighbours(0, 0), 1);
}

#[test]
fn wrap_counts_opposite_column() {
    // only the top-right cell is alive: the top-left cell must see it as a
    // horizontal neighbour through the wrap
    let mut b = dead_board(6, 4);
    b.data[5] = State::Alive;
    assert_eq!(b.num_alive_neighbours(0, 0), 1);
}

#[test]
fn wrap_counts_opposite_row() {
    // only the bottom-left cell is alive: the top-left cell must see it as
    // a vertical neighbour through the wrap
    let mut b = dead_board(6, 4);
    b.data[3 * 6] = State::Alive;
    assert_eq!(b.num_alive_neighbours(0, 0), 1);
}

#[test]
fn corner_cells_see_each_other() {
    // with all four corners alive, each corner counts the other three
    let mut b = dead_board(5, 4);
    b.data[0] = State::Alive;
    b.data[4] = State::Alive;
    b.data[3 * 5] = State::Alive;
    b.data[3 * 5 + 4] = State::Alive;
    assert_eq!(b.num_alive_neighbours(0, 0), 3);
    assert_eq!(b.num_alive_neighbours(4, 0), 3);
    assert_eq!(b.num_alive_neighbours(0, 3), 3);
    assert_eq!(b.num_alive_neighbours(4, 3), 3);
}

#[test]
fn neighbour_count_range() {
    // a fully alive board: every cell counts exactly its 8 neighbours
    let mut b = dead_board(3, 3);
    for k in 0..9 {
        b.data[k] = State::Alive;
    }
    for x in 0..3 {
        for y in 0..3 {
            let n = b.num_alive_neighbours(x, y);
            assert_eq!(n, 8);
        }
    }
}

#[test]
fn all_dead_build_deterministic() {
    let b1 = dead_board(4, 7);
    let b2 = dead_board(4, 7);
    assert_eq!(b1.compare_boards(&b2), true);
}

#[test]
fn compare_board_with_itself() {
    let mut b = dead_board(4, 3);
    b.data[2] = State::Alive;
    b.data[7] = State::Alive;
    assert_eq!(b.compare_boards(&b), true);
    let r = Board::build(6, 6, 1);
    assert_eq!(r.compare_boards(&r), true);
}

#[test]
fn compare_detects_difference() {
    let mut b1 = dead_board(3, 3);
    let b2 = dead_board(3, 3);
    b1.data[4] = State::Alive;
    assert_eq!(b1.compare_boards(&b2), false);
}

#[test]
fn horizontals_wrap_euclidean() {
    let b = dead_board(5, 2);
    assert_eq!(b.get_horizontals(0), [1, 4]);
    assert_eq!(b.get_horizontals(2), [3, 1]);
    assert_eq!(b.get_horizontals(4), [0, 3]);
}

#[test]
fn verticals_wrap_euclidean() {
    let b = dead_board(2, 5);
    assert_eq!(b.get_verticals(0), [1, 4]);
    assert_eq!(b.get_verticals(2), [3, 1]);
    assert_eq!(b.get_verticals(4), [0, 3]);
}

#[test]
fn render_exact_small_board() {
    let mut b = dead_board(2, 2);
    b.data[0] = State::Alive;
    let text = b.render();
    assert_eq!(text, b"+--+\n|# |\n|  |\n+--+\n".to_vec());
}

#[test]
fn render_recovers_states_row_major() {
    let mut b = dead_board(3, 2);
    b.data[1] = State::Alive;
    b.data[3] = State::Alive;
    b.data[5] = State::Alive;
    let text = b.render();
    // one border line, two cell lines, one border line, each 3 + 3 bytes
    assert_eq!(text.len(), 4 * 6);
    let mut states = Vec::new();
    for j in 0..2 {
        for i in 0..3 {
            let byte = text[(j + 1) * 6 + 1 + i];
            states.push(byte == b'#');
        }
    }
    assert_eq!(states, vec![false, true, false, true, false, true]);
}

#[test]
fn random_build_has_requested_dimensions() {
    let b = Board::build(6, 3, 1);
    assert_eq!(b.width, 6);
    assert_eq!(b.height, 3);
    assert_eq!(b.data.len(), 18);
    // every cell renders as one of the two glyphs
    let text = b.render();
    assert_eq!(text.len(), 5 * 9);
    for j in 0..3 {
        for i in 0..6 {
            let byte = text[(j + 1) * 9 + 1 + i];
            assert!(byte == b'#' || byte == b' ');
        }
    }
}

#[test]
fn zero_dimension_board_is_degenerate_but_valid() {
    let b = Board::build(0, 3, 0);
    assert_eq!(b.width, 0);
    assert_eq!(b.height, 3);
    assert_eq!(b.data.len(), 0);
    let b2 = b.next_board_state();
    assert_eq!(b.compare_boards(&b2), true);
    assert_eq!(b.render(), b"++\n||\n||\n||\n++\n".to_vec());

    let c = Board::build(4, 0, 0);
    assert_eq!(c.data.len(), 0);
    let c2 = c.next_board_state();
    assert_eq!(c.compare_boards(&c2), true);
    assert_eq!(c.render(), b"+----+\n+----+\n".to_vec());
}

#[test]
fn blinker_oscillates_with_period_two() {
    // a vertical blinker flips to horizontal and back
    let mut b0 = dead_board(5, 5);
    b0.data[1 * 5 + 2] = State::Alive;
    b0.data[2 * 5 + 2] = State::Alive;
    b0.data[3 * 5 + 2] = State::Alive;

    let b1 = b0.next_board_state();
    let mut horizontal = dead_board(5, 5);
    horizontal.data[2 * 5 + 1] = State::Alive;
    horizontal.data[2 * 5 + 2] = State::Alive;
    horizontal.data[2 * 5 + 3] = State::Alive;
    assert_eq!(b1.compare_boards(&horizontal), true);

    let b2 = b1.next_board_state();
    assert_eq!(b2.compare_boards(&b0), true);
}

#[test]
fn overpopulation_and_underpopulation() {
    // the lone corner of the L dies of underpopulation on a 9x9 grid (no
    // wrap contact), and the centre of a full 3x3 block dies of
    // overpopulation
    let mut lone = dead_board(9, 9);
    lone.data[4 * 9 + 4] = State::Alive;
    let next = lone.next_board_state();
    assert_eq!(next.data[4 * 9 + 4] == State::Dead, true);

    let mut block = dead_board(9, 9);
    for j in 3..6 {
        for i in 3..6 {
            block.data[j * 9 + i] = State::Alive;
        }
    }
    let stepped = block.next_board_state();
    assert_eq!(stepped.data[4 * 9 + 4] == State::Dead, true);
}
