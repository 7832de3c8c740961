use vstd::prelude::*;

verus! {

/// Cell `j` (0..3) of line `k`: lines 1..=3 are the rows, 4..=6 the columns,
/// 7 the main diagonal (0, 4, 8) and 8 the anti-diagonal (6, 4, 2).
pub open spec fn line_cell(k: int, j: int) -> int {
    if 1 <= k <= 3 {
        3 * (k - 1) + j
    } else if 4 <= k <= 6 {
        3 * j + (k - 4)
    } else if k == 7 {
        4 * j
    } else {
        6 - 2 * j
    }
}

/// Among the first `n` moves, the player of parity `p` (0: first mover) placed cell `c`.
pub open spec fn placed_by(moves: Seq<u8>, n: int, p: int, c: int) -> bool {
    exists|i: int| 0 <= i < n && i % 2 == p && #[trigger] moves[i] as int == c
}

/// Among the first `n` moves, the player of parity `p` holds all three cells of line `k`.
pub open spec fn line_full(moves: Seq<u8>, n: int, p: int, k: int) -> bool {
    &&& placed_by(moves, n, p, line_cell(k, 0))
    &&& placed_by(moves, n, p, line_cell(k, 1))
    &&& placed_by(moves, n, p, line_cell(k, 2))
}

/// The player of parity `p` holds some complete line among the first `n` moves.
pub open spec fn has_line(moves: Seq<u8>, n: int, p: int) -> bool {
    exists|k: int| 1 <= k <= 8 && #[trigger] line_full(moves, n, p, k)
}

/// A full rescan of the board after `n` moves: either player holds a complete line.
pub open spec fn board_has_line(moves: Seq<u8>, n: int) -> bool {
    has_line(moves, n, 0) || has_line(moves, n, 1)
}

/// The line code that the check local to the last of `n` moves reports: the
/// row, then the column through the last cell, then the two diagonals, each
/// checked against the cells of the player who made that move; 0 for none.
pub open spec fn win_code(moves: Seq<u8>, n: int) -> int {
    let p = (n - 1) % 2;
    let last = moves[n - 1] as int;
    let row = last / 3;
    let col = last % 3;
    if line_full(moves, n, p, row + 1) {
        row + 1
    } else if line_full(moves, n, p, 4 + col) {
        4 + col
    } else if line_full(moves, n, p, 7) {
        7
    } else if line_full(moves, n, p, 8) {
        8
    } else {
        0
    }
}

/// Moves `0..n` are cells of the board.
pub open spec fn cells_in_range(moves: Seq<u8>, n: int) -> bool {
    forall|i: int| 0 <= i < n ==> #[trigger] moves[i] < 9
}

/// No cell occurs twice among moves `0..n`.
pub open spec fn cells_distinct(moves: Seq<u8>, n: int) -> bool {
    forall|i: int, j: int| 0 <= i < j < n ==> #[trigger] moves[i] != #[trigger] moves[j]
}

/// A cell that the last of `n` moves did not place for player `p` was placed
/// by `p` within the first `n - 1` moves.
proof fn lemma_placed_before_last(moves: Seq<u8>, n: int, p: int, c: int)
    requires
        1 <= n,
        placed_by(moves, n, p, c),
        p != (n - 1) % 2 || moves[n - 1] as int != c,
    ensures
        placed_by(moves, n - 1, p, c),
{
    let w = choose|w: int| 0 <= w < n && w % 2 == p && #[trigger] moves[w] as int == c;
    assert(w != n - 1);
    assert(moves[w] as int == c);
}

/// A line through cell `c` is its row, its column or one of the diagonals.
proof fn lemma_line_through(k: int, j: int, c: int)
    requires
        1 <= k <= 8,
        0 <= j < 3,
        0 <= c < 9,
        line_cell(k, j) == c,
    ensures
        k == c / 3 + 1 || k == 4 + c % 3 || k == 7 || k == 8,
{
}

/// On a legal trace (cells on the board, no complete line on the board before
/// the last move), the check local to the last move reports a line exactly
/// when a full rescan of the board finds one, and the line it reports is
/// complete for the player who moved last.
pub proof fn lemma_local_check_matches_rescan(moves: Seq<u8>, n: int)
    requires
        1 <= n <= moves.len(),
        cells_in_range(moves, n),
        !board_has_line(moves, n - 1),
    ensures
        (win_code(moves, n) != 0) <==> board_has_line(moves, n),
        win_code(moves, n) != 0 ==> line_full(moves, n, (n - 1) % 2, win_code(moves, n)),
{
    let p = (n - 1) % 2;
    let q = 1 - p;
    let last = moves[n - 1] as int;
    assert(0 <= last < 9);
    if win_code(moves, n) != 0 {
        let k = win_code(moves, n);
        assert(line_full(moves, n, p, k));
        if p == 0 {
            assert(has_line(moves, n, 0));
        } else {
            assert(has_line(moves, n, 1));
        }
    }
    if has_line(moves, n, q) {
        let k = choose|k: int| 1 <= k <= 8 && #[trigger] line_full(moves, n, q, k);
        lemma_placed_before_last(moves, n, q, line_cell(k, 0));
        lemma_placed_before_last(moves, n, q, line_cell(k, 1));
        lemma_placed_before_last(moves, n, q, line_cell(k, 2));
        assert(line_full(moves, n - 1, q, k));
        assert(has_line(moves, n - 1, q));
        assert(false);
    }
    if has_line(moves, n, p) {
        let k = choose|k: int| 1 <= k <= 8 && #[trigger] line_full(moves, n, p, k);
        if line_cell(k, 0) != last && line_cell(k, 1) != last && line_cell(k, 2) != last {
            lemma_placed_before_last(moves, n, p, line_cell(k, 0));
            lemma_placed_before_last(moves, n, p, line_cell(k, 1));
            lemma_placed_before_last(moves, n, p, line_cell(k, 2));
            assert(line_full(moves, n - 1, p, k));
            assert(has_line(moves, n - 1, p));
            assert(false);
        }
        if line_cell(k, 0) == last {
            lemma_line_through(k, 0, last);
        } else if line_cell(k, 1) == last {
            lemma_line_through(k, 1, last);
        } else {
            lemma_line_through(k, 2, last);
        }
        assert(win_code(moves, n) != 0);
    }
}

/// Checks whether the last of `no_of_moves` moves completed a line for the
/// player who made it, looking only at the lines through the cell just played.
pub fn did_win(moves: &[u8], no_of_moves: u8) -> (r: u8)
    requires
        1 <= no_of_moves <= moves@.len(),
        cells_in_range(moves@, no_of_moves as int),
    ensures
        r as int == win_code(moves@, no_of_moves as int),
{
    let ghost s = moves@;
    let ghost n = no_of_moves as int;
    let ghost p = (n - 1) % 2;
    let mut plays: [u8; 9] = [0; 9];
    let start: usize = if no_of_moves % 2 == 0 {
        1
    } else {
        0
    };
    let last_move = moves[(no_of_moves - 1) as usize];
    let row = (last_move / 3) as usize;
    let col = (last_move % 3) as usize;
    let limit: u8 = 3;

    let mut i: usize = start;
    while i < no_of_moves as usize
        invariant
            s == moves@,
            n == no_of_moves as int,
            n <= s.len(),
            cells_in_range(s, n),
            start as int == p,
            p == 0 || p == 1,
            start <= i <= n + 1,
            i as int % 2 == p,
            forall|c: int| 0 <= c < 9 ==> (#[trigger] plays@[c] == 1 || plays@[c] == 0),
            forall|c: int|
                0 <= c < 9 ==> (#[trigger] plays@[c] == 1 <==> placed_by(s, i as int, p, c)),
        decreases n + 2 - i,
    {
        let m = moves[i];
        plays[m as usize] = 1;
        proof {
            assert forall|c: int| 0 <= c < 9 implies (#[trigger] plays@[c] == 1 <==> placed_by(
                s,
                i + 2,
                p,
                c,
            )) by {
                if placed_by(s, i + 2, p, c) && c != m as int {
                    let w = choose|w: int| 0 <= w < i + 2 && w % 2 == p && #[trigger] s[w] as int == c;
                    assert(w != i + 1);
                    assert(w != i);
                    assert(placed_by(s, i as int, p, c));
                }
                if c == m as int {
                    assert(s[i as int] as int == c);
                }
                if placed_by(s, i as int, p, c) {
                    let w = choose|w: int| 0 <= w < i && w % 2 == p && #[trigger] s[w] as int == c;
                    assert(s[w] as int == c);
                }
            }
        }
        i = i + 2;
    }
    proof {
        assert forall|c: int| 0 <= c < 9 implies (#[trigger] plays@[c] == 1 <==> placed_by(s, n, p, c)) by {
            if placed_by(s, i as int, p, c) {
                let w = choose|w: int| 0 <= w < i && w % 2 == p && #[trigger] s[w] as int == c;
                assert(w != n);
                assert(s[w] as int == c);
            }
            if placed_by(s, n, p, c) {
                let w = choose|w: int| 0 <= w < n && w % 2 == p && #[trigger] s[w] as int == c;
                assert(s[w] as int == c);
            }
        }
    }

    let row_sum = plays[row * 3] + plays[row * 3 + 1] + plays[row * 3 + 2];
    let col_sum = plays[col] + plays[3 + col] + plays[6 + col];
    let diag1_sum = plays[0] + plays[4] + plays[8];
    let diag2_sum = plays[6] + plays[4] + plays[2];

    if row_sum == limit {
        return (row + 1) as u8;
    }
    if col_sum == limit {
        return (4 + col) as u8;
    }
    if diag1_sum == limit {
        return 7;
    }
    if diag2_sum == limit {
        return 8;
    }
    0
}

} // verus!
