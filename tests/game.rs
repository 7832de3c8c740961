use tictactoe::error::GameError;
use tictactoe::game_data::GameData;
use tictactoe::player_data::PlayerData;
use tictactoe::processor::{close_game, play, settle};

const FIRST: [u8; 32] = [1; 32];
const SECOND: [u8; 32] = [2; 32];
const GAME: [u8; 32] = [9; 32];

fn new_game() -> GameData {
    GameData { player1: FIRST, player2: SECOND, no_of_moves: 0, game_status: 0, moves: [0; 9] }
}

fn in_game(key: [u8; 32]) -> PlayerData {
    PlayerData { name: [b'x'; 20], invitation_count: 0, current_game: key }
}

fn play_all(game: &mut GameData, cells: &[u8]) {
    let p1 = in_game(GAME);
    let p2 = in_game(GAME);
    for (i, cell) in cells.iter().enumerate() {
        let (player, key) = if i % 2 == 0 { (&p1, &FIRST) } else { (&p2, &SECOND) };
        assert_eq!(play(game, &GAME, player, key, *cell), Ok(()));
    }
}

#[test]
fn full_row_wins_and_pays_the_first_player() {
    let mut game = new_game();
    play_all(&mut game, &[0, 3, 1, 4]);
    assert_eq!(game.game_status, 0);
    play_all_from(&mut game, 4, &[2]);
    assert_eq!(game.game_status, 1);
    assert_eq!(game.no_of_moves, 5);

    let pot = 1_000_000_000u64;
    // closed by player1
    let pay = settle(&game, &FIRST, pot);
    assert_eq!((pay.to_player, pay.to_opponent), (pot, 0));
    // closed by player2: everything still goes to player1
    let pay = settle(&game, &SECOND, pot);
    assert_eq!((pay.to_player, pay.to_opponent), (0, pot));

    let settled = close_game(&SECOND, &in_game(GAME), 10, &FIRST, &in_game(GAME), 20, &game, pot)
        .unwrap()
        .unwrap();
    assert_eq!(settled.player_lamports, 10);
    assert_eq!(settled.opponent_lamports, 20 + pot);
    assert_eq!(settled.player.current_game, [0; 32]);
    assert_eq!(settled.opponent.current_game, [0; 32]);
}

fn play_all_from(game: &mut GameData, start: usize, cells: &[u8]) {
    let p1 = in_game(GAME);
    let p2 = in_game(GAME);
    for (i, cell) in cells.iter().enumerate() {
        let (player, key) = if (start + i) % 2 == 0 { (&p1, &FIRST) } else { (&p2, &SECOND) };
        assert_eq!(play(game, &GAME, player, key, *cell), Ok(()));
    }
}

#[test]
fn full_board_without_line_is_a_draw_split_in_halves() {
    let mut game = new_game();
    play_all(&mut game, &[0, 1, 2, 4, 3, 5, 7, 6]);
    assert_eq!(game.game_status, 0);
    play_all_from(&mut game, 8, &[8]);
    assert_eq!(game.game_status, 9);
    assert_eq!(game.no_of_moves, 9);

    let pay = settle(&game, &FIRST, 2_000_000_000);
    assert_eq!((pay.to_player, pay.to_opponent), (1_000_000_000, 1_000_000_000));
    let settled = close_game(&FIRST, &in_game(GAME), 0, &SECOND, &in_game(GAME), 0, &game, 2_000_000_000)
        .unwrap()
        .unwrap();
    assert_eq!(settled.player_lamports, 1_000_000_000);
    assert_eq!(settled.opponent_lamports, 1_000_000_000);
}

#[test]
fn odd_draw_pot_is_paid_out_whole() {
    let mut game = new_game();
    play_all(&mut game, &[0, 1, 2, 4, 3, 5, 7, 6, 8]);
    let pay = settle(&game, &FIRST, 5);
    assert_eq!(pay.to_player + pay.to_opponent, 5);
    assert_eq!((pay.to_player, pay.to_opponent), (2, 3));
}

#[test]
fn unresolved_game_goes_to_the_opponent_of_the_closer() {
    let mut game = new_game();
    play_all(&mut game, &[4, 0]);
    let pay = settle(&game, &FIRST, 700);
    assert_eq!((pay.to_player, pay.to_opponent), (0, 700));
    let pay = settle(&game, &SECOND, 700);
    assert_eq!((pay.to_player, pay.to_opponent), (0, 700));
}

#[test]
fn second_player_win_pays_player2() {
    let mut game = new_game();
    play_all(&mut game, &[0, 3, 1, 4, 8, 5]);
    assert_eq!(game.game_status, 2);
    let pay = settle(&game, &SECOND, 40);
    assert_eq!((pay.to_player, pay.to_opponent), (40, 0));
    let pay = settle(&game, &FIRST, 40);
    assert_eq!((pay.to_player, pay.to_opponent), (0, 40));
}

#[test]
fn resolved_game_refuses_moves_and_stays_unchanged() {
    let mut game = new_game();
    play_all(&mut game, &[0, 3, 1, 4, 2]);
    let before = game;
    let r = play(&mut game, &GAME, &in_game(GAME), &SECOND, 5);
    assert_eq!(r, Err(GameError::InvalidRequest));
    assert_eq!(game, before);
}

#[test]
fn occupied_cell_is_refused() {
    let mut game = new_game();
    play_all(&mut game, &[4]);
    let before = game;
    assert_eq!(play(&mut game, &GAME, &in_game(GAME), &SECOND, 4), Err(GameError::InvalidRequest));
    assert_eq!(game, before);
}

#[test]
fn cell_off_the_board_is_refused() {
    let mut game = new_game();
    assert_eq!(play(&mut game, &GAME, &in_game(GAME), &FIRST, 9), Err(GameError::InvalidRequest));
    assert_eq!(game, new_game());
}

#[test]
fn move_out_of_turn_is_unauthorized() {
    let mut game = new_game();
    assert_eq!(play(&mut game, &GAME, &in_game(GAME), &SECOND, 0), Err(GameError::Unauthorized));
    assert_eq!(game, new_game());
}

#[test]
fn player_in_another_game_is_unauthorized() {
    let mut game = new_game();
    let r = play(&mut game, &GAME, &in_game([8; 32]), &FIRST, 0);
    assert_eq!(r, Err(GameError::Unauthorized));
}

#[test]
fn moves_are_recorded_in_order() {
    let mut game = new_game();
    play_all(&mut game, &[4, 0, 8]);
    assert_eq!(game.no_of_moves, 3);
    assert_eq!(&game.moves[..3], &[4, 0, 8]);
    assert_eq!(game.game_status, 0);
}

#[test]
fn closing_an_empty_game_does_nothing() {
    let game = new_game();
    let r = close_game(&FIRST, &in_game(GAME), 1, &SECOND, &in_game(GAME), 2, &game, 0);
    assert_eq!(r, Ok(None));
}

#[test]
fn closing_with_a_stranger_is_unauthorized() {
    let game = new_game();
    let r = close_game(&FIRST, &in_game(GAME), 1, &[5; 32], &in_game(GAME), 2, &game, 100);
    assert_eq!(r, Err(GameError::Unauthorized));
}

#[test]
fn payout_that_overflows_a_balance_is_a_logic_error() {
    let game = new_game();
    let r = close_game(&FIRST, &in_game(GAME), 0, &SECOND, &in_game(GAME), u64::MAX, &game, 100);
    assert_eq!(r, Err(GameError::LogicError));
}

fn full_scan(moves: &[u8], n: usize) -> bool {
    const LINES: [[u8; 3]; 8] =
        [[0, 1, 2], [3, 4, 5], [6, 7, 8], [0, 3, 6], [1, 4, 7], [2, 5, 8], [0, 4, 8], [2, 4, 6]];
    (0..2).any(|p| {
        LINES.iter().any(|line| line.iter().all(|c| (0..n).any(|i| i % 2 == p && moves[i] == *c)))
    })
}

fn explore(game: GameData, p1: &PlayerData, p2: &PlayerData, games: &mut usize) {
    let n = game.no_of_moves as usize;
    let line = full_scan(&game.moves, n);
    assert_eq!((1..=8).contains(&game.game_status), line);
    assert_eq!(game.game_status == 9, n == 9 && !line);
    if game.game_status != 0 {
        *games += 1;
        return;
    }
    for cell in 0..9u8 {
        let mut next = game;
        let (player, key) = if n % 2 == 0 { (p1, &FIRST) } else { (p2, &SECOND) };
        let r = play(&mut next, &GAME, player, key, cell);
        if game.moves[..n].contains(&cell) {
            assert_eq!(r, Err(GameError::InvalidRequest));
            assert_eq!(next, game);
        } else {
            assert_eq!(r, Ok(()));
            explore(next, p1, p2, games);
        }
    }
}

#[test]
fn status_agrees_with_a_full_scan_over_the_whole_game_tree() {
    let mut games = 0usize;
    explore(new_game(), &in_game(GAME), &in_game(GAME), &mut games);
    assert_eq!(games, 255_168);
}
