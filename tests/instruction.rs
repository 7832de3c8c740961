use solana_program::pubkey::Pubkey;
use tictactoe::challenge_data::ChallengeData;
use tictactoe::error::GameError;
use tictactoe::game_data::GameData;
use tictactoe::instruction::{process_instruction, AccountState, Sysvars};
use tictactoe::player_data::PlayerData;

const PROGRAM: [u8; 32] = [42; 32];
const RESERVE: u64 = 1_000_000;
const SYS: Sysvars = Sysvars { minimum_balance: RESERVE, timestamp: 77, starter: 0 };

fn pda(seeds: &[&[u8]]) -> ([u8; 32], u8) {
    let (key, bump) = Pubkey::find_program_address(seeds, &Pubkey::new_from_array(PROGRAM));
    (key.to_bytes(), bump)
}

fn acc(key: [u8; 32], is_signer: bool, lamports: u64, data: Vec<u8>) -> AccountState {
    AccountState { key, is_signer, lamports, data }
}

struct Player {
    wallet: [u8; 32],
    key: [u8; 32],
    bump: u8,
}

fn player(seed: u8) -> Player {
    let wallet = [seed; 32];
    let (key, bump) = pda(&[&wallet, b"player"]);
    Player { wallet, key, bump }
}

fn record(name: &[u8]) -> Vec<u8> {
    let mut p = PlayerData { name: [0; 20], invitation_count: 0, current_game: [0; 32] };
    p.set_name(name);
    p.write()
}

fn total(accounts: &[AccountState]) -> u128 {
    accounts.iter().map(|a| a.lamports as u128).sum()
}

#[test]
fn register_creates_the_player_record() {
    let alice = player(10);
    let mut accounts = vec![acc(alice.wallet, true, 5 * RESERVE, vec![]), acc(alice.key, false, 0, vec![])];
    let mut data = vec![alice.bump, 0];
    data.extend_from_slice(b"  alice ");
    let created = process_instruction(&PROGRAM, &mut accounts, &data, &SYS).unwrap().unwrap();
    assert_eq!(created.index, 1);
    assert_eq!(created.lamports, RESERVE);
    assert_eq!(created.space, 53);
    assert_eq!(created.seeds, vec![alice.wallet.to_vec(), b"player".to_vec(), vec![alice.bump]]);
    assert_eq!(accounts[0].lamports, 4 * RESERVE);
    assert_eq!(accounts[1].lamports, RESERVE);
    assert_eq!(accounts[1].data, record(b"alice"));
}

#[test]
fn register_with_a_bad_name_changes_nothing() {
    let alice = player(10);
    let mut accounts = vec![acc(alice.wallet, true, 5 * RESERVE, vec![]), acc(alice.key, false, 0, vec![])];
    let before = accounts.clone();
    let r = process_instruction(&PROGRAM, &mut accounts, &[alice.bump, 0, b'a', b'b'], &SYS);
    assert_eq!(r, Err(GameError::InvalidInstructionData));
    assert_eq!(accounts, before);
}

#[test]
fn unsigned_wallet_is_unauthorized() {
    let alice = player(10);
    let mut accounts = vec![acc(alice.wallet, false, 5 * RESERVE, vec![]), acc(alice.key, false, 0, vec![])];
    let r = process_instruction(&PROGRAM, &mut accounts, &[alice.bump, 1], &SYS);
    assert_eq!(r, Err(GameError::Unauthorized));
}

#[test]
fn forged_player_record_is_unauthorized() {
    let alice = player(10);
    let bob = player(20);
    let mut accounts = vec![acc(alice.wallet, true, 5 * RESERVE, vec![]), acc(bob.key, false, 0, vec![])];
    let r = process_instruction(&PROGRAM, &mut accounts, &[bob.bump, 1], &SYS);
    assert_eq!(r, Err(GameError::Unauthorized));
}

#[test]
fn malformed_requests_are_refused() {
    let alice = player(10);
    let mut one = vec![acc(alice.wallet, true, 1, vec![])];
    assert_eq!(process_instruction(&PROGRAM, &mut one, &[alice.bump, 1], &SYS), Err(GameError::InvalidRequest));
    let mut accounts = vec![acc(alice.wallet, true, 1, vec![]), acc(alice.key, false, 0, vec![])];
    assert_eq!(process_instruction(&PROGRAM, &mut accounts, &[alice.bump], &SYS), Err(GameError::InvalidInstructionData));
    assert_eq!(process_instruction(&PROGRAM, &mut accounts, &[alice.bump, 9], &SYS), Err(GameError::InvalidInstructionData));
    assert_eq!(process_instruction(&PROGRAM, &mut accounts, &[alice.bump, 5, 0], &SYS), Err(GameError::InvalidRequest));
    assert_eq!(process_instruction(&PROGRAM, &mut accounts, &[alice.bump, 1], &SYS), Ok(None));
    assert_eq!(process_instruction(&PROGRAM, &mut accounts, &[alice.bump, 2], &SYS), Ok(None));
}

struct Table {
    alice: Player,
    bob: Player,
    challenge: [u8; 32],
    challenge_bump: u8,
    game: [u8; 32],
    game_bump: u8,
}

fn table() -> Table {
    let alice = player(10);
    let bob = player(20);
    let (challenge, challenge_bump) = pda(&[&alice.key, &bob.key, b"challenge"]);
    let (game, game_bump) = pda(&[&challenge, b"game"]);
    Table { alice, bob, challenge, challenge_bump, game, game_bump }
}

fn issue_accounts(t: &Table, alice_lamports: u64) -> Vec<AccountState> {
    vec![
        acc(t.alice.wallet, true, 0, vec![]),
        acc(t.alice.key, false, alice_lamports, record(b"alice")),
        acc(t.bob.key, false, RESERVE, record(b"bobby")),
        acc(t.challenge, false, 0, vec![]),
    ]
}

#[test]
fn stake_tier_out_of_range_creates_nothing() {
    let t = table();
    let mut accounts = issue_accounts(&t, RESERVE + 3_000_000_000);
    let before = accounts.clone();
    let r = process_instruction(&PROGRAM, &mut accounts, &[t.alice.bump, 3, t.challenge_bump, 5], &SYS);
    assert_eq!(r, Err(GameError::InvalidInstructionData));
    assert_eq!(accounts, before);
}

#[test]
fn second_challenge_to_the_same_player_is_refused() {
    let t = table();
    let mut accounts = issue_accounts(&t, RESERVE + 3_000_000_000);
    let data = [t.alice.bump, 3, t.challenge_bump, 1];
    let created = process_instruction(&PROGRAM, &mut accounts, &data, &SYS).unwrap().unwrap();
    assert_eq!(created.index, 3);
    assert_eq!(created.space, 73);
    assert_eq!(accounts[3].lamports, 1_000_000_000);
    assert_eq!(accounts[1].lamports, RESERVE + 2_000_000_000);
    let before = accounts.clone();
    let r = process_instruction(&PROGRAM, &mut accounts, &data, &SYS);
    assert_eq!(r, Err(GameError::InvalidRequest));
    assert_eq!(accounts, before);
}

#[test]
fn issued_challenge_records_both_players_and_counts_the_invitation() {
    let t = table();
    let mut accounts = issue_accounts(&t, RESERVE + 600_000_000);
    let before = total(&accounts);
    process_instruction(&PROGRAM, &mut accounts, &[t.alice.bump, 3, t.challenge_bump, 0], &SYS).unwrap();
    let c = ChallengeData::parse(&accounts[3].data).unwrap();
    assert_eq!(c, ChallengeData { invited_id: t.bob.key, invitee_id: t.alice.key, stake_index: 0, timestamp: 77 });
    assert_eq!(PlayerData::parse(&accounts[2].data).unwrap().invitation_count, 1);
    assert_eq!(accounts[3].lamports, 500_000_000);
    assert_eq!(total(&accounts), before);
}

#[test]
fn challenge_beyond_free_balance_is_refused() {
    let t = table();
    let mut accounts = issue_accounts(&t, RESERVE + 499_999_999);
    let r = process_instruction(&PROGRAM, &mut accounts, &[t.alice.bump, 3, t.challenge_bump, 0], &SYS);
    assert_eq!(r, Err(GameError::InsufficientFunds));
}

#[test]
fn challenge_at_a_forged_address_is_unauthorized() {
    let t = table();
    let mut accounts = issue_accounts(&t, RESERVE + 3_000_000_000);
    accounts[3].key = [77; 32];
    let r = process_instruction(&PROGRAM, &mut accounts, &[t.alice.bump, 3, t.challenge_bump, 0], &SYS);
    assert_eq!(r, Err(GameError::Unauthorized));
}

/// Alice challenges Bob at tier 1 and returns the accounts afterwards.
fn issued(t: &Table) -> Vec<AccountState> {
    let mut accounts = issue_accounts(t, RESERVE + 3_000_000_000);
    process_instruction(&PROGRAM, &mut accounts, &[t.alice.bump, 3, t.challenge_bump, 1], &SYS).unwrap();
    accounts
}

fn accept_accounts(t: &Table, issued: &[AccountState], bob_lamports: u64) -> Vec<AccountState> {
    vec![
        acc(t.bob.wallet, true, 0, vec![]),
        acc(t.bob.key, false, bob_lamports, issued[2].data.clone()),
        issued[3].clone(),
        acc(t.game, false, 0, vec![]),
        issued[1].clone(),
    ]
}

#[test]
fn accepting_beyond_free_balance_leaves_the_challenge() {
    let t = table();
    let after_issue = issued(&t);
    let mut accounts = accept_accounts(&t, &after_issue, RESERVE + 999_999_999);
    let before = accounts.clone();
    let r = process_instruction(&PROGRAM, &mut accounts, &[t.bob.bump, 4, t.game_bump, t.challenge_bump], &SYS);
    assert_eq!(r, Err(GameError::InsufficientFunds));
    assert_eq!(accounts, before);
    assert_eq!(accounts[2].lamports, 1_000_000_000);
}

#[test]
fn a_whole_game_from_acceptance_to_settlement() {
    let t = table();
    let after_issue = issued(&t);
    let mut accounts = accept_accounts(&t, &after_issue, RESERVE + 1_000_000_000);
    let start_total = total(&accounts);
    let created = process_instruction(&PROGRAM, &mut accounts, &[t.bob.bump, 4, t.game_bump, t.challenge_bump], &SYS)
        .unwrap()
        .unwrap();
    assert_eq!(created.index, 3);
    assert_eq!(created.space, 75);
    assert_eq!(total(&accounts), start_total);
    assert_eq!(accounts[2].lamports, 0);
    assert_eq!(accounts[2].data, vec![0u8; 73]);
    assert_eq!(accounts[3].lamports, 2_000_000_000);
    assert_eq!(accounts[1].lamports, RESERVE);
    let game = GameData::parse(&accounts[3].data).unwrap();
    // an even starter lets the challenger move first
    assert_eq!((game.player1, game.player2), (t.alice.key, t.bob.key));
    let bob = PlayerData::parse(&accounts[1].data).unwrap();
    assert_eq!((bob.invitation_count, bob.current_game), (0, t.game));
    let alice = PlayerData::parse(&accounts[4].data).unwrap();
    assert_eq!(alice.current_game, t.game);

    let mut alice_acc = vec![acc(t.alice.wallet, true, 0, vec![]), accounts[4].clone(), accounts[3].clone()];
    let mut bob_acc = vec![acc(t.bob.wallet, true, 0, vec![]), accounts[1].clone(), accounts[3].clone()];
    for (i, cell) in [0u8, 3, 1, 4, 2].iter().enumerate() {
        let (mover, bump) = if i % 2 == 0 { (&mut alice_acc, t.alice.bump) } else { (&mut bob_acc, t.bob.bump) };
        assert_eq!(process_instruction(&PROGRAM, mover, &[bump, 5, *cell], &SYS), Ok(None));
        let game_now = mover[2].clone();
        alice_acc[2] = game_now.clone();
        bob_acc[2] = game_now;
    }
    let game = GameData::parse(&alice_acc[2].data).unwrap();
    assert_eq!(game.game_status, 1);
    let r = process_instruction(&PROGRAM, &mut bob_acc, &[t.bob.bump, 5, 5], &SYS);
    assert_eq!(r, Err(GameError::InvalidRequest));

    // Bob closes the game: the whole pot goes to Alice
    let mut closing = vec![
        acc(t.bob.wallet, true, 0, vec![]),
        bob_acc[1].clone(),
        alice_acc[2].clone(),
        alice_acc[1].clone(),
    ];
    let before = total(&closing);
    let alice_before = closing[3].lamports;
    assert_eq!(process_instruction(&PROGRAM, &mut closing, &[t.bob.bump, 6], &SYS), Ok(None));
    assert_eq!(total(&closing), before);
    assert_eq!(closing[2].lamports, 0);
    assert_eq!(closing[3].lamports, alice_before + 2_000_000_000);
    assert_eq!(closing[2].data, vec![0u8; 75]);
    assert_eq!(PlayerData::parse(&closing[1].data).unwrap().current_game, [0; 32]);
    assert_eq!(PlayerData::parse(&closing[3].data).unwrap().current_game, [0; 32]);
}

#[test]
fn withdraw_and_close_account_move_balances_to_the_wallet() {
    let alice = player(10);
    let mut accounts = vec![acc(alice.wallet, true, 5, vec![]), acc(alice.key, false, RESERVE + 100, record(b"alice"))];
    assert_eq!(process_instruction(&PROGRAM, &mut accounts, &[alice.bump, 7], &SYS), Ok(None));
    assert_eq!((accounts[0].lamports, accounts[1].lamports), (105, RESERVE));
    assert_eq!(process_instruction(&PROGRAM, &mut accounts, &[alice.bump, 8], &SYS), Ok(None));
    assert_eq!((accounts[0].lamports, accounts[1].lamports), (105 + RESERVE, 0));
    assert_eq!(accounts[1].data, vec![0u8; 53]);
}

#[test]
fn odd_starter_lets_the_challenged_player_move_first() {
    let t = table();
    let after_issue = issued(&t);
    let mut accounts = accept_accounts(&t, &after_issue, RESERVE + 1_000_000_000);
    let odd = Sysvars { starter: 1, ..SYS };
    process_instruction(&PROGRAM, &mut accounts, &[t.bob.bump, 4, t.game_bump, t.challenge_bump], &odd).unwrap();
    let game = GameData::parse(&accounts[3].data).unwrap();
    assert_eq!((game.player1, game.player2), (t.bob.key, t.alice.key));
}

#[test]
fn a_consumed_challenge_cannot_be_accepted() {
    let t = table();
    let after_issue = issued(&t);
    let mut accounts = accept_accounts(&t, &after_issue, RESERVE + 5_000_000_000);
    accounts[2].lamports = 0;
    let before = accounts.clone();
    let r = process_instruction(&PROGRAM, &mut accounts, &[t.bob.bump, 4, t.game_bump, t.challenge_bump], &SYS);
    assert_eq!(r, Err(GameError::InvalidRequest));
    assert_eq!(accounts, before);
    // a cleared record names no players, so its address does not check out
    accounts[2].data = vec![0u8; 73];
    let r = process_instruction(&PROGRAM, &mut accounts, &[t.bob.bump, 4, t.game_bump, t.challenge_bump], &SYS);
    assert_eq!(r, Err(GameError::Unauthorized));
}

#[test]
fn only_the_challenged_player_can_accept() {
    let t = table();
    let after_issue = issued(&t);
    let carol = player(30);
    let mut accounts = accept_accounts(&t, &after_issue, RESERVE + 5_000_000_000);
    accounts[0] = acc(carol.wallet, true, 0, vec![]);
    accounts[1] = acc(carol.key, false, RESERVE + 5_000_000_000, record(b"carol"));
    let before = accounts.clone();
    let r = process_instruction(&PROGRAM, &mut accounts, &[carol.bump, 4, t.game_bump, t.challenge_bump], &SYS);
    assert_eq!(r, Err(GameError::Unauthorized));
    assert_eq!(accounts, before);
}

#[test]
fn the_other_player_must_be_the_challenger() {
    let t = table();
    let after_issue = issued(&t);
    let carol = player(30);
    let mut accounts = accept_accounts(&t, &after_issue, RESERVE + 5_000_000_000);
    accounts[4] = acc(carol.key, false, RESERVE, record(b"carol"));
    let r = process_instruction(&PROGRAM, &mut accounts, &[t.bob.bump, 4, t.game_bump, t.challenge_bump], &SYS);
    assert_eq!(r, Err(GameError::Unauthorized));
}

#[test]
fn challenge_with_a_wrong_discriminant_is_unauthorized() {
    let t = table();
    let after_issue = issued(&t);
    let mut accounts = accept_accounts(&t, &after_issue, RESERVE + 5_000_000_000);
    let wrong = t.challenge_bump.wrapping_sub(1);
    let r = process_instruction(&PROGRAM, &mut accounts, &[t.bob.bump, 4, t.game_bump, wrong], &SYS);
    assert_eq!(r, Err(GameError::Unauthorized));
}

#[test]
fn accept_without_the_challenge_discriminant_is_malformed() {
    let t = table();
    let after_issue = issued(&t);
    let mut accounts = accept_accounts(&t, &after_issue, RESERVE + 5_000_000_000);
    let r = process_instruction(&PROGRAM, &mut accounts, &[t.bob.bump, 4, t.game_bump], &SYS);
    assert_eq!(r, Err(GameError::InvalidInstructionData));
}

#[test]
fn stake_tier_is_checked_before_the_opponent_record_is_read() {
    let t = table();
    let mut accounts = issue_accounts(&t, RESERVE + 3_000_000_000);
    accounts[2].data = vec![1, 2, 3];
    let r = process_instruction(&PROGRAM, &mut accounts, &[t.alice.bump, 3, t.challenge_bump, 3], &SYS);
    assert_eq!(r, Err(GameError::InvalidInstructionData));
    let r = process_instruction(&PROGRAM, &mut accounts, &[t.alice.bump, 3, t.challenge_bump, 2], &SYS);
    assert_eq!(r, Err(GameError::InvalidRequest));
}
