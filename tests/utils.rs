use solana_program::pubkey::Pubkey;
use tictactoe::error::GameError;
use tictactoe::game_data::GameData;
use tictactoe::processor::{close_account, register_player, stake_for, withdraw_excess};
use tictactoe::utils::{
    get_starter,
    get_timestamp,
    get_validated_name,
    same_keys,
    verify_challenge_acc,
    verify_game_acc,
    verify_game_players,
    verify_player_acc,
};

const PROGRAM: [u8; 32] = [42; 32];

#[test]
fn same_keys_compares_the_first_32_bytes() {
    let a = [1u8; 40];
    let mut b = [1u8; 33];
    assert!(same_keys(&a, &b));
    b[31] = 2;
    assert!(!same_keys(&a, &b));
    b[31] = 1;
    b[32] = 9;
    assert!(same_keys(&a, &b));
}

#[test]
fn game_players_match_in_either_order() {
    let g = GameData { player1: [1; 32], player2: [2; 32], no_of_moves: 0, game_status: 0, moves: [0; 9] };
    assert!(verify_game_players(&[1; 32], &[2; 32], &g));
    assert!(verify_game_players(&[2; 32], &[1; 32], &g));
    assert!(!verify_game_players(&[1; 32], &[1; 32], &g));
    assert!(!verify_game_players(&[1; 32], &[3; 32], &g));
}

#[test]
fn name_is_trimmed() {
    assert_eq!(get_validated_name(b"  dave  ", 4), Ok(String::from("dave")));
    assert_eq!(get_validated_name(b"\teve lyn\n", 4), Ok(String::from("eve lyn")));
}

#[test]
fn name_too_short_once_trimmed_is_refused() {
    assert_eq!(get_validated_name(b"  abc     ", 4), Err(GameError::InvalidInstructionData));
}

#[test]
fn name_longer_than_twenty_bytes_is_refused() {
    assert_eq!(get_validated_name(b"abcdefghijklmnopqrstu", 4), Err(GameError::InvalidInstructionData));
    assert_eq!(get_validated_name(b"abcdefghijklmnopqrst", 4), Ok(String::from("abcdefghijklmnopqrst")));
}

#[test]
fn padding_beyond_twenty_bytes_is_trimmed_away() {
    assert_eq!(
        get_validated_name(b"    abcdefghijklmnopqrst    ", 4),
        Ok(String::from("abcdefghijklmnopqrst"))
    );
    assert_eq!(get_validated_name(b"      grace             ", 4), Ok(String::from("grace")));
    let p = register_player(b"          heidi          ").unwrap();
    assert_eq!(&p.name[..5], b"heidi");
}

#[test]
fn name_that_is_not_utf8_is_refused() {
    assert_eq!(get_validated_name(&[0x66, 0x6f, 0xff, 0x6f, 0x6f], 4), Err(GameError::InvalidInstructionData));
}

#[test]
fn registered_record_holds_padded_name() {
    let p = register_player(b" frank ").unwrap();
    assert_eq!(&p.name[..5], b"frank");
    assert_eq!(&p.name[5..], &[b' '; 15]);
    assert_eq!(p.invitation_count, 0);
    assert_eq!(p.current_game, [0; 32]);
    assert_eq!(register_player(b"ab"), Err(GameError::InvalidInstructionData));
}

#[test]
fn player_address_is_verified_against_its_derivation() {
    let program = Pubkey::new_from_array(PROGRAM);
    let wallet = [3u8; 32];
    let (pda, bump) = Pubkey::find_program_address(&[&wallet, b"player"], &program);
    assert!(verify_player_acc(&wallet, &pda.to_bytes(), bump, &PROGRAM));
    assert!(!verify_player_acc(&[4u8; 32], &pda.to_bytes(), bump, &PROGRAM));
    assert!(!verify_player_acc(&wallet, &wallet, bump, &PROGRAM));
}

#[test]
fn challenge_and_game_addresses_are_verified() {
    let program = Pubkey::new_from_array(PROGRAM);
    let a = [5u8; 32];
    let b = [6u8; 32];
    let (challenge, cb) = Pubkey::find_program_address(&[&a, &b, b"challenge"], &program);
    assert!(verify_challenge_acc(&a, &b, &challenge.to_bytes(), cb, &PROGRAM));
    assert!(!verify_challenge_acc(&b, &a, &challenge.to_bytes(), cb, &PROGRAM));
    let c = challenge.to_bytes();
    let (game, gb) = Pubkey::find_program_address(&[&c, b"game"], &program);
    assert!(verify_game_acc(&c, &game.to_bytes(), gb, &PROGRAM));
    assert!(!verify_game_acc(&c, &c, gb, &PROGRAM));
}

#[test]
fn starter_is_the_slot_parity() {
    assert_eq!(get_starter(Some(10)), 0);
    assert_eq!(get_starter(Some(7)), 1);
    assert_eq!(get_starter(None), 0);
}

#[test]
fn timestamp_keeps_the_bits_of_the_clock() {
    assert_eq!(get_timestamp(1_700_000_000), 1_700_000_000);
    assert_eq!(get_timestamp(-1), u64::MAX);
    assert_eq!(get_timestamp(i64::MIN), 1u64 << 63);
}

#[test]
fn stake_tiers() {
    assert_eq!(stake_for(0), 500_000_000);
    assert_eq!(stake_for(1), 1_000_000_000);
    assert_eq!(stake_for(2), 2_000_000_000);
}

#[test]
fn withdraw_leaves_exactly_the_reserve() {
    assert_eq!(withdraw_excess(1_500, 10, 1_000), Ok((1_000, 510)));
    assert_eq!(withdraw_excess(1_000, 10, 1_000), Ok((1_000, 10)));
    assert_eq!(withdraw_excess(999, 10, 1_000), Err(GameError::InsufficientFunds));
    assert_eq!(withdraw_excess(2_000, u64::MAX, 1_000), Err(GameError::LogicError));
}

#[test]
fn closing_an_account_moves_its_whole_balance() {
    assert_eq!(close_account(1_234, 66), Ok(1_300));
    assert_eq!(close_account(1, u64::MAX), Err(GameError::LogicError));
}
