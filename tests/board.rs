use tictactoe::board::did_win;

#[test]
fn row_completed_by_first_player() {
    assert_eq!(did_win(&[0, 3, 1, 4, 2], 5), 1);
}

#[test]
fn column_completed_by_first_player() {
    assert_eq!(did_win(&[0, 1, 3, 2, 6], 5), 4);
}

#[test]
fn right_column_gives_code_six() {
    assert_eq!(did_win(&[2, 0, 5, 1, 8], 5), 6);
}

#[test]
fn main_diagonal_gives_code_seven() {
    assert_eq!(did_win(&[0, 1, 4, 2, 8], 5), 7);
}

#[test]
fn anti_diagonal_gives_code_eight() {
    assert_eq!(did_win(&[2, 0, 4, 1, 6], 5), 8);
}

#[test]
fn second_player_completes_middle_row() {
    assert_eq!(did_win(&[0, 3, 1, 4, 8, 5], 6), 2);
}

#[test]
fn no_line_gives_zero() {
    assert_eq!(did_win(&[0, 1, 2, 4, 3], 5), 0);
}

#[test]
fn only_the_last_movers_cells_count() {
    // the second player holds the top row, but the first player moved last
    assert_eq!(did_win(&[3, 0, 4, 1, 8, 2, 7], 7), 0);
}

#[test]
fn row_is_reported_before_column() {
    // the last cell, 0, completes both the top row and the left column
    assert_eq!(did_win(&[1, 4, 2, 5, 3, 7, 6, 8, 0], 9), 1);
}

#[test]
fn moves_past_the_count_are_ignored() {
    assert_eq!(did_win(&[0, 3, 1, 4, 6, 5, 2, 0, 0], 5), 0);
}

const LINES: [[u8; 3]; 8] = [
    [0, 1, 2],
    [3, 4, 5],
    [6, 7, 8],
    [0, 3, 6],
    [1, 4, 7],
    [2, 5, 8],
    [0, 4, 8],
    [2, 4, 6],
];

/// Full rescan: does either player hold a complete line among the first `n` moves?
fn rescan(moves: &[u8], n: usize) -> bool {
    (0..2).any(|p| {
        LINES.iter().any(|line| line.iter().all(|c| (0..n).any(|i| i % 2 == p && moves[i] == *c)))
    })
}

fn walk(moves: &mut [u8; 9], n: usize, visited: &mut usize) {
    *visited += 1;
    if n >= 1 && !rescan(moves, n - 1) {
        assert_eq!(did_win(moves, n as u8) != 0, rescan(moves, n), "moves {:?}", &moves[..n]);
    }
    if n == 9 {
        return;
    }
    for cell in 0..9u8 {
        if !moves[..n].contains(&cell) {
            moves[n] = cell;
            walk(moves, n + 1, visited);
        }
    }
}

#[test]
fn local_check_agrees_with_rescan_on_every_trace() {
    let mut moves = [0u8; 9];
    let mut visited = 0usize;
    walk(&mut moves, 0, &mut visited);
    assert_eq!(visited, 986_410);
}

#[test]
fn a_line_made_earlier_is_not_reported_again() {
    // the first player's top row stands; the second player's last move makes no line
    assert_eq!(did_win(&[0, 3, 1, 4, 2, 8], 6), 0);
    assert!(rescan(&[0, 3, 1, 4, 2, 8], 6));
}
