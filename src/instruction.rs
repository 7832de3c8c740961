use vstd::prelude::*;

use crate::challenge_data::{
    challenge_of,
    lemma_challenge_of_layout,
    ChallengeData,
    CHALLENGE_ACC_SIZE,
};
use crate::error::GameError;
use crate::game_data::{game_of, lemma_game_of_layout, GameData, GAME_ACC_SIZE};
use crate::player_data::{lemma_player_of_layout, player_of, zero_key, PlayerData, PLAYER_ACC_SIZE};
use crate::processor::{
    accept_challenge,
    accept_error,
    close_account,
    close_game,
    is_played,
    is_registered,
    issue_challenge,
    issue_error,
    move_error,
    name_is_valid,
    payout,
    play,
    register_player,
    stake_amount,
    withdraw_excess,
    STAKE_TIERS,
};
use crate::utils::{
    are_game_players,
    challenge_seed_list,
    challenge_seeds,
    game_seed_list,
    game_seeds,
    player_seed_list,
    player_seeds,
    address_matches,
    keys_equal,
    verify_player_acc,
};
use vstd::slice::slice_subrange;

verus! {

/// One account handed to an instruction, as the ledger holds it.
#[derive(Debug, Clone, PartialEq, Eq)]
pub struct AccountState {
    /// The account's address.
    pub key: [u8; 32],
    /// The transaction carries this account's signature.
    pub is_signer: bool,
    /// The account's balance.
    pub lamports: u64,
    /// The account's stored bytes.
    pub data: Vec<u8>,
}

/// A record that the ledger creates before the new state is stored, signed
/// for with `seeds`, paid by the wallet.
#[derive(Debug, Clone, PartialEq, Eq)]
pub struct CreateAccount {
    /// Position of the new record among the instruction's accounts.
    pub index: usize,
    /// Balance that the wallet moves into the new record.
    pub lamports: u64,
    /// Bytes that the new record holds.
    pub space: u64,
    /// Seeds, discriminant last, from which the record's address derives.
    pub seeds: Vec<Vec<u8>>,
}

/// What the ledger's environment supplies to an instruction.
#[derive(Debug, Clone, Copy, PartialEq, Eq)]
pub struct Sysvars {
    /// The reserve that a player record keeps to stay alive.
    pub minimum_balance: u64,
    /// The time now.
    pub timestamp: u64,
    /// A parity from outside, which picks the first mover of a new game.
    pub starter: u8,
}

/// Accounts outside `changed` are as they were; those inside keep their
/// address and signature flag.
pub open spec fn rest_unchanged(
    old: Seq<AccountState>,
    new: Seq<AccountState>,
    changed: Set<int>,
) -> bool {
    &&& new.len() == old.len()
    &&& forall|i: int| 0 <= i < old.len() && !changed.contains(i) ==> #[trigger] new[i] == old[i]
    &&& forall|i: int|
        0 <= i < old.len() && changed.contains(i) ==> #[trigger] new[i].key == old[i].key
            && new[i].is_signer == old[i].is_signer
}

/// The stored bytes `after` are `before` with every byte set to zero.
pub open spec fn zeroed(before: Seq<u8>, after: Seq<u8>) -> bool {
    after.len() == before.len() && forall|i: int| 0 <= i < after.len() ==> #[trigger] after[i] == 0
}

/// The player record stored as `after` is the one stored as `before`, in no game.
pub open spec fn left_game(before: Seq<u8>, after: Seq<u8>) -> bool {
    &&& after.len() == PLAYER_ACC_SIZE
    &&& player_of(after).current_game@ == zero_key()
    &&& player_of(after).name == player_of(before).name
    &&& player_of(after).invitation_count == player_of(before).invitation_count
}

/// Playing the cell `data[2]`: account 1 is the player's record, account 2 the game.
pub open spec fn play_transition(
    old: Seq<AccountState>,
    new: Seq<AccountState>,
    data: Seq<u8>,
    r: Result<Option<CreateAccount>, GameError>,
) -> bool {
    let player = old[1];
    let game = old[2];
    if player.data@.len() != PLAYER_ACC_SIZE || game.data@.len() != GAME_ACC_SIZE {
        r == Err::<Option<CreateAccount>, GameError>(GameError::InvalidRequest)
    } else {
        match move_error(game_of(game.data@), game.key@, player_of(player.data@), player.key@, data[2]) {
            Some(e) => r == Err::<Option<CreateAccount>, GameError>(e),
            None => {
                &&& r matches Ok(None)
                &&& rest_unchanged(old, new, set![2])
                &&& new[2].lamports == game.lamports
                &&& new[2].data@.len() == GAME_ACC_SIZE
                &&& is_played(game_of(game.data@), data[2], game_of(new[2].data@))
            },
        }
    }
}

/// Closing a game: account 1 is the closing player's record, account 2 the
/// game, account 3 the other participant's record.
pub open spec fn close_transition(
    old: Seq<AccountState>,
    new: Seq<AccountState>,
    r: Result<Option<CreateAccount>, GameError>,
) -> bool {
    let player = old[1];
    let game = old[2];
    let opponent = old[3];
    if game.data@.len() != GAME_ACC_SIZE {
        r == Err::<Option<CreateAccount>, GameError>(GameError::InvalidRequest)
    } else if game.lamports == 0 {
        r matches Ok(None) && new == old
    } else if player.data@.len() != PLAYER_ACC_SIZE || opponent.data@.len() != PLAYER_ACC_SIZE {
        r == Err::<Option<CreateAccount>, GameError>(GameError::InvalidRequest)
    } else if !are_game_players(player.key@, opponent.key@, game_of(game.data@)) {
        r == Err::<Option<CreateAccount>, GameError>(GameError::Unauthorized)
    } else {
        let pay = payout(game_of(game.data@), player.key@, game.lamports);
        if player.lamports + pay.0 > u64::MAX || opponent.lamports + pay.1 > u64::MAX {
            r == Err::<Option<CreateAccount>, GameError>(GameError::LogicError)
        } else {
            &&& r matches Ok(None)
            &&& rest_unchanged(old, new, set![1, 2, 3])
            &&& new[1].lamports == player.lamports + pay.0
            &&& new[3].lamports == opponent.lamports + pay.1
            &&& new[2].lamports == 0
            &&& left_game(player.data@, new[1].data@)
            &&& left_game(opponent.data@, new[3].data@)
            &&& zeroed(game.data@, new[2].data@)
        }
    }
}

/// Registering a player: account 0 is the wallet, account 1 the new player
/// record, and the name is `data[2..]`.
pub open spec fn register_transition(
    old: Seq<AccountState>,
    new: Seq<AccountState>,
    data: Seq<u8>,
    minimum_balance: u64,
    r: Result<Option<CreateAccount>, GameError>,
) -> bool {
    let name = data.subrange(2, data.len() as int);
    let wallet = old[0];
    let player = old[1];
    if player.lamports != 0 || player.data@.len() != 0 {
        r == Err::<Option<CreateAccount>, GameError>(GameError::InvalidRequest)
    } else if !name_is_valid(name) {
        r == Err::<Option<CreateAccount>, GameError>(GameError::InvalidInstructionData)
    } else if wallet.lamports < minimum_balance {
        r == Err::<Option<CreateAccount>, GameError>(GameError::InsufficientFunds)
    } else {
        &&& r matches Ok(Some(c)) && c.index == 1 && c.lamports == minimum_balance && c.space
            == PLAYER_ACC_SIZE && c.seeds.deep_view() == player_seeds(wallet.key@, data[0])
        &&& rest_unchanged(old, new, set![0, 1])
        &&& new[0].lamports == wallet.lamports - minimum_balance
        &&& new[0].data == wallet.data
        &&& new[1].lamports == minimum_balance
        &&& new[1].data@.len() == PLAYER_ACC_SIZE
        &&& is_registered(name, player_of(new[1].data@))
    }
}

/// Issuing a challenge: account 1 is the challenger's record, account 2 the
/// challenged player's record, account 3 the new challenge record; `data[2]`
/// is the challenge's discriminant and `data[3]` the stake tier.
pub open spec fn issue_transition(
    program_id: Seq<u8>,
    old: Seq<AccountState>,
    new: Seq<AccountState>,
    data: Seq<u8>,
    sysvars: Sysvars,
    r: Result<Option<CreateAccount>, GameError>,
) -> bool {
    let player = old[1];
    let opponent = old[2];
    let challenge = old[3];
    let stake = stake_amount(data[3] as int);
    if challenge.lamports > 0 || challenge.data@.len() != 0 || player.key@ == opponent.key@ {
        r == Err::<Option<CreateAccount>, GameError>(GameError::InvalidRequest)
    } else if data[3] >= STAKE_TIERS {
        r == Err::<Option<CreateAccount>, GameError>(GameError::InvalidInstructionData)
    } else if opponent.data@.len() != PLAYER_ACC_SIZE {
        r == Err::<Option<CreateAccount>, GameError>(GameError::InvalidRequest)
    } else {
        match issue_error(
            program_id,
            player.key@,
            player.lamports,
            opponent.key@,
            player_of(opponent.data@),
            challenge.key@,
            challenge.lamports,
            data[2],
            data[3],
            sysvars.minimum_balance,
        ) {
            Some(e) => r == Err::<Option<CreateAccount>, GameError>(e),
            None => {
                &&& r matches Ok(Some(c)) && c.index == 3 && c.lamports == 0 && c.space
                    == CHALLENGE_ACC_SIZE && c.seeds.deep_view() == challenge_seeds(
                    player.key@,
                    opponent.key@,
                    data[2],
                )
                &&& rest_unchanged(old, new, set![1, 2, 3])
                &&& new[1].lamports == player.lamports - stake
                &&& new[1].data == player.data
                &&& new[2].lamports == opponent.lamports
                &&& new[2].data@.len() == PLAYER_ACC_SIZE
                &&& player_of(new[2].data@) == (PlayerData {
                    invitation_count: (player_of(opponent.data@).invitation_count + 1) as u8,
                    ..player_of(opponent.data@)
                })
                &&& new[3].lamports == stake
                &&& new[3].data@.len() == CHALLENGE_ACC_SIZE
                &&& challenge_of(new[3].data@).invited_id == opponent.key
                &&& challenge_of(new[3].data@).invitee_id == player.key
                &&& challenge_of(new[3].data@).stake_index == data[3]
                &&& challenge_of(new[3].data@).timestamp == sysvars.timestamp
            },
        }
    }
}

/// Accepting a challenge: account 1 is the accepting player's record,
/// account 2 the challenge, account 3 the new game record, account 4 the
/// challenger's record; `data[2]` is the game's discriminant and `data[3]`
/// the challenge's.
pub open spec fn accept_transition(
    program_id: Seq<u8>,
    old: Seq<AccountState>,
    new: Seq<AccountState>,
    data: Seq<u8>,
    sysvars: Sysvars,
    r: Result<Option<CreateAccount>, GameError>,
) -> bool {
    let player = old[1];
    let challenge = old[2];
    let game = old[3];
    let opponent = old[4];
    let ch = challenge_of(challenge.data@);
    let stake = stake_amount(ch.stake_index as int);
    if player.data@.len() != PLAYER_ACC_SIZE || challenge.data@.len() != CHALLENGE_ACC_SIZE
        || opponent.data@.len() != PLAYER_ACC_SIZE || game.lamports != 0 || game.data@.len() != 0 {
        r == Err::<Option<CreateAccount>, GameError>(GameError::InvalidRequest)
    } else {
        match accept_error(
            program_id,
            player.key@,
            player_of(player.data@),
            player.lamports,
            challenge.key@,
            data[3],
            ch,
            challenge.lamports,
            game.key@,
            data[2],
            opponent.key@,
            sysvars.minimum_balance,
        ) {
            Some(e) => r == Err::<Option<CreateAccount>, GameError>(e),
            None => {
                let g = game_of(new[3].data@);
                &&& r matches Ok(Some(c)) && c.index == 3 && c.lamports == 0 && c.space
                    == GAME_ACC_SIZE && c.seeds.deep_view() == game_seeds(challenge.key@, data[2])
                &&& rest_unchanged(old, new, set![1, 2, 3, 4])
                &&& new[1].lamports == player.lamports - stake
                &&& new[1].data@.len() == PLAYER_ACC_SIZE
                &&& player_of(new[1].data@) == (PlayerData {
                    invitation_count: (player_of(player.data@).invitation_count - 1) as u8,
                    current_game: game.key,
                    ..player_of(player.data@)
                })
                &&& new[2].lamports == 0
                &&& zeroed(challenge.data@, new[2].data@)
                &&& new[3].lamports == 2 * stake
                &&& new[3].data@.len() == GAME_ACC_SIZE
                &&& sysvars.starter % 2 == 0 ==> g.player1 == ch.invitee_id && g.player2
                    == ch.invited_id
                &&& sysvars.starter % 2 == 1 ==> g.player1 == ch.invited_id && g.player2
                    == ch.invitee_id
                &&& g.no_of_moves == 0
                &&& g.game_status == 0
                &&& g.moves@ == Seq::new(9, |i: int| 0u8)
                &&& new[4].lamports == opponent.lamports
                &&& new[4].data@.len() == PLAYER_ACC_SIZE
                &&& player_of(new[4].data@) == (PlayerData {
                    current_game: game.key,
                    ..player_of(opponent.data@)
                })
            },
        }
    }
}

/// Withdrawing the excess of a player record: account 0 is the wallet,
/// account 1 the player's record.
pub open spec fn withdraw_transition(
    old: Seq<AccountState>,
    new: Seq<AccountState>,
    minimum_balance: u64,
    r: Result<Option<CreateAccount>, GameError>,
) -> bool {
    let wallet = old[0];
    let player = old[1];
    if player.lamports < minimum_balance {
        r == Err::<Option<CreateAccount>, GameError>(GameError::InsufficientFunds)
    } else if wallet.lamports + (player.lamports - minimum_balance) > u64::MAX {
        r == Err::<Option<CreateAccount>, GameError>(GameError::LogicError)
    } else {
        &&& r matches Ok(None)
        &&& rest_unchanged(old, new, set![0, 1])
        &&& new[0].lamports == wallet.lamports + (player.lamports - minimum_balance)
        &&& new[0].data == wallet.data
        &&& new[1].lamports == minimum_balance
        &&& new[1].data == player.data
    }
}

/// Closing a player record: account 0 is the wallet, account 1 the record.
pub open spec fn close_account_transition(
    old: Seq<AccountState>,
    new: Seq<AccountState>,
    r: Result<Option<CreateAccount>, GameError>,
) -> bool {
    let wallet = old[0];
    let player = old[1];
    if wallet.lamports + player.lamports > u64::MAX {
        r == Err::<Option<CreateAccount>, GameError>(GameError::LogicError)
    } else {
        &&& r matches Ok(None)
        &&& rest_unchanged(old, new, set![0, 1])
        &&& new[0].lamports == wallet.lamports + player.lamports
        &&& new[0].data == wallet.data
        &&& new[1].lamports == 0
        &&& zeroed(player.data@, new[1].data@)
    }
}

/// Registers a player.
fn step_register(accounts: &mut Vec<AccountState>, data: &[u8], minimum_balance: u64) -> (r:
    Result<Option<CreateAccount>, GameError>)
    requires
        old(accounts)@.len() >= 2,
        data@.len() >= 2,
    ensures
        register_transition(old(accounts)@, final(accounts)@, data@, minimum_balance, r),
        r is Err ==> final(accounts)@ == old(accounts)@,
{
    if accounts[1].lamports != 0 || accounts[1].data.len() != 0 {
        return Err(GameError::InvalidRequest);
    }
    let name = slice_subrange(data, 2, data.len());
    let player = register_player(name)?;
    if accounts[0].lamports < minimum_balance {
        return Err(GameError::InsufficientFunds);
    }
    let seeds = player_seed_list(&accounts[0].key, data[0]);
    let bytes = player.write();
    proof {
        lemma_player_of_layout(player);
    }
    accounts[0].lamports = accounts[0].lamports - minimum_balance;
    accounts[1].lamports = minimum_balance;
    accounts[1].data = bytes;
    Ok(Some(CreateAccount { index: 1, lamports: minimum_balance, space: PLAYER_ACC_SIZE, seeds }))
}

/// Issues a challenge.
fn step_issue(
    program_id: &[u8; 32],
    accounts: &mut Vec<AccountState>,
    data: &[u8],
    sysvars: &Sysvars,
) -> (r: Result<Option<CreateAccount>, GameError>)
    requires
        old(accounts)@.len() >= 4,
        data@.len() >= 4,
    ensures
        issue_transition(program_id@, old(accounts)@, final(accounts)@, data@, *sysvars, r),
        r is Err ==> final(accounts)@ == old(accounts)@,
{
    if accounts[3].lamports > 0 || accounts[3].data.len() != 0 || keys_equal(
        &accounts[1].key,
        &accounts[2].key,
    ) {
        return Err(GameError::InvalidRequest);
    }
    if data[3] >= STAKE_TIERS {
        return Err(GameError::InvalidInstructionData);
    }
    let opponent = PlayerData::parse(accounts[2].data.as_slice())?;
    proof {
        lemma_player_of_layout(opponent);
    }
    let issued = issue_challenge(
        program_id,
        &accounts[1].key,
        accounts[1].lamports,
        &accounts[2].key,
        &opponent,
        &accounts[3].key,
        accounts[3].lamports,
        data[2],
        data[3],
        sysvars.minimum_balance,
        sysvars.timestamp,
    )?;
    let seeds = challenge_seed_list(&accounts[1].key, &accounts[2].key, data[2]);
    let opponent_bytes = issued.opponent.write();
    let challenge_bytes = issued.challenge.write();
    proof {
        lemma_player_of_layout(issued.opponent);
        lemma_challenge_of_layout(issued.challenge);
    }
    accounts[1].lamports = issued.player_lamports;
    accounts[2].data = opponent_bytes;
    accounts[3].lamports = issued.challenge_lamports;
    accounts[3].data = challenge_bytes;
    Ok(Some(CreateAccount { index: 3, lamports: 0, space: CHALLENGE_ACC_SIZE, seeds }))
}

/// Accepts a challenge.
fn step_accept(
    program_id: &[u8; 32],
    accounts: &mut Vec<AccountState>,
    data: &[u8],
    sysvars: &Sysvars,
) -> (r: Result<Option<CreateAccount>, GameError>)
    requires
        old(accounts)@.len() >= 5,
        data@.len() >= 4,
    ensures
        accept_transition(program_id@, old(accounts)@, final(accounts)@, data@, *sysvars, r),
        r is Err ==> final(accounts)@ == old(accounts)@,
{
    let player = PlayerData::parse(accounts[1].data.as_slice())?;
    let challenge = ChallengeData::parse(accounts[2].data.as_slice())?;
    let opponent = PlayerData::parse(accounts[4].data.as_slice())?;
    if accounts[3].lamports != 0 || accounts[3].data.len() != 0 {
        return Err(GameError::InvalidRequest);
    }
    proof {
        lemma_player_of_layout(player);
        lemma_player_of_layout(opponent);
        lemma_challenge_of_layout(challenge);
    }
    let accepted = accept_challenge(
        program_id,
        &accounts[1].key,
        &player,
        accounts[1].lamports,
        &accounts[2].key,
        data[3],
        &challenge,
        accounts[2].lamports,
        &accounts[3].key,
        data[2],
        &accounts[4].key,
        &opponent,
        sysvars.minimum_balance,
        sysvars.starter,
    )?;
    let seeds = game_seed_list(&accounts[2].key, data[2]);
    let player_bytes = accepted.player.write();
    let opponent_bytes = accepted.opponent.write();
    let game_bytes = accepted.game.write();
    proof {
        lemma_player_of_layout(accepted.player);
        lemma_player_of_layout(accepted.opponent);
        lemma_game_of_layout(accepted.game);
    }
    accounts[1].lamports = accepted.player_lamports;
    accounts[1].data = player_bytes;
    accounts[2].lamports = 0;
    ChallengeData::clear(&mut accounts[2].data);
    accounts[3].lamports = accepted.game_lamports;
    accounts[3].data = game_bytes;
    accounts[4].data = opponent_bytes;
    Ok(Some(CreateAccount { index: 3, lamports: 0, space: GAME_ACC_SIZE, seeds }))
}

/// Moves the excess of a player record to its wallet.
fn step_withdraw(accounts: &mut Vec<AccountState>, minimum_balance: u64) -> (r: Result<
    Option<CreateAccount>,
    GameError,
>)
    requires
        old(accounts)@.len() >= 2,
    ensures
        withdraw_transition(old(accounts)@, final(accounts)@, minimum_balance, r),
        r is Err ==> final(accounts)@ == old(accounts)@,
{
    let (player_lamports, wallet_lamports) = withdraw_excess(
        accounts[1].lamports,
        accounts[0].lamports,
        minimum_balance,
    )?;
    accounts[0].lamports = wallet_lamports;
    accounts[1].lamports = player_lamports;
    Ok(None)
}

/// Closes a player record, moving its balance to its wallet.
fn step_close_account(accounts: &mut Vec<AccountState>) -> (r: Result<
    Option<CreateAccount>,
    GameError,
>)
    requires
        old(accounts)@.len() >= 2,
    ensures
        close_account_transition(old(accounts)@, final(accounts)@, r),
        r is Err ==> final(accounts)@ == old(accounts)@,
{
    let wallet_lamports = close_account(accounts[1].lamports, accounts[0].lamports)?;
    accounts[0].lamports = wallet_lamports;
    accounts[1].lamports = 0;
    PlayerData::clear(&mut accounts[1].data);
    Ok(None)
}

/// Plays a move.
fn step_play(accounts: &mut Vec<AccountState>, data: &[u8]) -> (r: Result<
    Option<CreateAccount>,
    GameError,
>)
    requires
        old(accounts)@.len() >= 3,
        data@.len() >= 3,
    ensures
        play_transition(old(accounts)@, final(accounts)@, data@, r),
        r is Err ==> final(accounts)@ == old(accounts)@,
{
    let player = PlayerData::parse(accounts[1].data.as_slice())?;
    let mut game = GameData::parse(accounts[2].data.as_slice())?;
    proof {
        lemma_player_of_layout(player);
        lemma_game_of_layout(game);
    }
    play(&mut game, &accounts[2].key, &player, &accounts[1].key, data[2])?;
    let bytes = game.write();
    proof {
        lemma_game_of_layout(game);
    }
    accounts[2].data = bytes;
    assert(accounts@ =~= old(accounts)@.update(2, accounts@[2]));
    Ok(None)
}

/// Closes a game and pays out its balance.
fn step_close(accounts: &mut Vec<AccountState>) -> (r: Result<Option<CreateAccount>, GameError>)
    requires
        old(accounts)@.len() >= 4,
    ensures
        close_transition(old(accounts)@, final(accounts)@, r),
        r is Err ==> final(accounts)@ == old(accounts)@,
{
    let game = GameData::parse(accounts[2].data.as_slice())?;
    if accounts[2].lamports == 0 {
        return Ok(None);
    }
    let player = PlayerData::parse(accounts[1].data.as_slice())?;
    let opponent = PlayerData::parse(accounts[3].data.as_slice())?;
    proof {
        lemma_player_of_layout(player);
        lemma_player_of_layout(opponent);
        lemma_game_of_layout(game);
    }
    // the game holds a balance, so closing it always settles
    if let Some(settled) = close_game(
        &accounts[1].key,
        &player,
        accounts[1].lamports,
        &accounts[3].key,
        &opponent,
        accounts[3].lamports,
        &game,
        accounts[2].lamports,
    )? {
        let player_bytes = settled.player.write();
        let opponent_bytes = settled.opponent.write();
        proof {
            lemma_player_of_layout(settled.player);
            lemma_player_of_layout(settled.opponent);
        }
        accounts[1].lamports = settled.player_lamports;
        accounts[1].data = player_bytes;
        accounts[3].lamports = settled.opponent_lamports;
        accounts[3].data = opponent_bytes;
        accounts[2].lamports = 0;
        GameData::clear(&mut accounts[2].data);
    }
    Ok(None)
}


/// The first `n` accounts have pairwise different addresses.
pub open spec fn keys_distinct(accounts: Seq<AccountState>, n: int) -> bool {
    forall|i: int, j: int|
        0 <= i < j < n ==> #[trigger] accounts[i].key@ != #[trigger] accounts[j].key@
}

/// Checks that the first `n` accounts have pairwise different addresses.
fn distinct_keys(accounts: &Vec<AccountState>, n: usize) -> (r: bool)
    requires
        n <= accounts@.len(),
    ensures
        r == keys_distinct(accounts@, n as int),
{
    let mut i: usize = 0;
    while i < n
        invariant
            n <= accounts@.len(),
            0 <= i <= n,
            forall|a: int, b: int|
                0 <= a < i && a < b < n ==> #[trigger] accounts@[a].key@ != #[trigger] accounts@[b].key@,
        decreases n - i,
    {
        let mut j: usize = i + 1;
        while j < n
            invariant
                n <= accounts@.len(),
                0 <= i < n,
                i < j <= n,
                forall|a: int, b: int|
                    0 <= a < i && a < b < n ==> #[trigger] accounts@[a].key@
                        != #[trigger] accounts@[b].key@,
                forall|b: int| i < b < j ==> accounts@[i as int].key@ != #[trigger] accounts@[b].key@,
            decreases n - j,
        {
            if keys_equal(&accounts[i].key, &accounts[j].key) {
                return false;
            }
            j = j + 1;
        }
        i = i + 1;
    }
    true
}

/// How many accounts an instruction uses.
pub open spec fn accounts_needed(op: u8) -> int {
    if op == 3 || op == 6 {
        4
    } else if op == 4 {
        5
    } else if op == 5 {
        3
    } else {
        2
    }
}

/// How many payload bytes an instruction reads, at least.
pub open spec fn data_needed(op: u8) -> int {
    if op == 3 || op == 4 {
        4
    } else if op == 5 {
        3
    } else {
        2
    }
}

/// The caller is authenticated: the wallet (account 0) signed, and account 1
/// is its player record, derived with the discriminant `data[0]`.
pub open spec fn authenticated(program_id: Seq<u8>, accounts: Seq<AccountState>, data: Seq<u8>) -> bool {
    &&& accounts.len() >= 2
    &&& data.len() >= 2
    &&& accounts[0].is_signer
    &&& address_matches(player_seeds(accounts[0].key@, data[0]), program_id, accounts[1].key@)
}

/// Runs one instruction: `instruction_data[0]` is the discriminant of the
/// caller's player record, `instruction_data[1]` the operation, and the rest
/// its payload. On success the accounts hold their new state and the result
/// names the record that the ledger must create first, if any. A refused
/// instruction changes nothing.
pub fn process_instruction(
    program_id: &[u8; 32],
    accounts: &mut Vec<AccountState>,
    instruction_data: &[u8],
    sysvars: &Sysvars,
) -> (r: Result<Option<CreateAccount>, GameError>)
    ensures
        r is Err ==> final(accounts)@ == old(accounts)@,
        // no instruction creates or destroys balance
        r is Ok ==> total_lamports(final(accounts)@) == total_lamports(old(accounts)@),
        old(accounts)@.len() < 2 ==> r == Err::<Option<CreateAccount>, GameError>(
            GameError::InvalidRequest,
        ),
        old(accounts)@.len() >= 2 && instruction_data@.len() < 2 ==> r == Err::<
            Option<CreateAccount>,
            GameError,
        >(GameError::InvalidInstructionData),
        old(accounts)@.len() >= 2 && instruction_data@.len() >= 2 && !authenticated(
            program_id@,
            old(accounts)@,
            instruction_data@,
        ) ==> r == Err::<Option<CreateAccount>, GameError>(GameError::Unauthorized),
        authenticated(program_id@, old(accounts)@, instruction_data@) ==> {
            let old_acc = old(accounts)@;
            let new_acc = final(accounts)@;
            let data = instruction_data@;
            let op = data[1];
            if op > 8 {
                r == Err::<Option<CreateAccount>, GameError>(GameError::InvalidInstructionData)
            } else if old_acc.len() < accounts_needed(op) || !keys_distinct(
                old_acc,
                accounts_needed(op),
            ) {
                r == Err::<Option<CreateAccount>, GameError>(GameError::InvalidRequest)
            } else if data.len() < data_needed(op) {
                r == Err::<Option<CreateAccount>, GameError>(GameError::InvalidInstructionData)
            } else if op == 0 {
                register_transition(old_acc, new_acc, data, sysvars.minimum_balance, r)
            } else if op == 1 || op == 2 {
                r matches Ok(None) && new_acc == old_acc
            } else if op == 3 {
                issue_transition(program_id@, old_acc, new_acc, data, *sysvars, r)
            } else if op == 4 {
                accept_transition(program_id@, old_acc, new_acc, data, *sysvars, r)
            } else if op == 5 {
                play_transition(old_acc, new_acc, data, r)
            } else if op == 6 {
                close_transition(old_acc, new_acc, r)
            } else if op == 7 {
                withdraw_transition(old_acc, new_acc, sysvars.minimum_balance, r)
            } else {
                close_account_transition(old_acc, new_acc, r)
            }
        },
{
    if accounts.len() < 2 {
        return Err(GameError::InvalidRequest);
    }
    if instruction_data.len() < 2 {
        return Err(GameError::InvalidInstructionData);
    }
    let player_bump = instruction_data[0];
    if !accounts[0].is_signer || !verify_player_acc(
        &accounts[0].key,
        &accounts[1].key,
        player_bump,
        program_id,
    ) {
        return Err(GameError::Unauthorized);
    }
    let op = instruction_data[1];
    if op > 8 {
        return Err(GameError::InvalidInstructionData);
    }
    let needed: usize = if op == 3 || op == 6 {
        4
    } else if op == 4 {
        5
    } else if op == 5 {
        3
    } else {
        2
    };
    if accounts.len() < needed || !distinct_keys(accounts, needed) {
        return Err(GameError::InvalidRequest);
    }
    let data_len: usize = if op == 3 || op == 4 {
        4
    } else if op == 5 {
        3
    } else {
        2
    };
    if instruction_data.len() < data_len {
        return Err(GameError::InvalidInstructionData);
    }
    let r = match op {
        0 => step_register(accounts, instruction_data, sysvars.minimum_balance),
        1 | 2 => Ok(None),
        3 => step_issue(program_id, accounts, instruction_data, sysvars),
        4 => step_accept(program_id, accounts, instruction_data, sysvars),
        5 => step_play(accounts, instruction_data),
        6 => step_close(accounts),
        7 => step_withdraw(accounts, sysvars.minimum_balance),
        _ => step_close_account(accounts),
    };
    proof {
        if r is Ok {
            let old_acc = old(accounts)@;
            let new_acc = accounts@;
            let k = accounts_needed(op);
            lemma_total_prefix(old_acc, k);
            lemma_total_prefix(new_acc, k);
            if op == 6 && old_acc[2].lamports > 0 {
                let g = game_of(old_acc[2].data@);
                crate::processor::lemma_settlement_conserves(g, old_acc[1].key@, old_acc[2].lamports);
            }
            lemma_total_same_tail(old_acc, new_acc, k, old_acc.len() as int);
        }
    }
    r
}

/// The total balance of the first `n` accounts.
pub open spec fn total_upto(accounts: Seq<AccountState>, n: int) -> int
    decreases n,
{
    if n <= 0 {
        0
    } else {
        total_upto(accounts, n - 1) + accounts[n - 1].lamports
    }
}

/// The total balance of all the accounts of an instruction.
pub open spec fn total_lamports(accounts: Seq<AccountState>) -> int {
    total_upto(accounts, accounts.len() as int)
}

/// The totals of the first two to five accounts, spelled out.
proof fn lemma_total_prefix(a: Seq<AccountState>, k: int)
    requires
        2 <= k <= 5,
    ensures
        k == 2 ==> total_upto(a, k) == a[0].lamports + a[1].lamports,
        k == 3 ==> total_upto(a, k) == a[0].lamports + a[1].lamports + a[2].lamports,
        k == 4 ==> total_upto(a, k) == a[0].lamports + a[1].lamports + a[2].lamports
            + a[3].lamports,
        k == 5 ==> total_upto(a, k) == a[0].lamports + a[1].lamports + a[2].lamports
            + a[3].lamports + a[4].lamports,
{
    reveal_with_fuel(total_upto, 6);
}

/// Where two account lists agree on the balances from position `k` to `n`,
/// their totals up to `n` differ as much as their totals up to `k`.
proof fn lemma_total_same_tail(a: Seq<AccountState>, b: Seq<AccountState>, k: int, n: int)
    requires
        0 <= k <= n <= a.len(),
        a.len() == b.len(),
        forall|i: int| k <= i < n ==> #[trigger] a[i].lamports == b[i].lamports,
    ensures
        total_upto(b, n) - total_upto(a, n) == total_upto(b, k) - total_upto(a, k),
    decreases n - k,
{
    if n > k {
        lemma_total_same_tail(a, b, k, n - 1);
    }
}

/// Issuing a challenge with a stake tier outside the table, where no live
/// challenge stands between two different players, is refused as malformed;
/// a refused instruction creates no record.
pub proof fn lemma_stake_tier_out_of_range(
    program_id: Seq<u8>,
    old: Seq<AccountState>,
    new: Seq<AccountState>,
    data: Seq<u8>,
    sysvars: Sysvars,
    r: Result<Option<CreateAccount>, GameError>,
)
    requires
        issue_transition(program_id, old, new, data, sysvars, r),
        data[3] >= STAKE_TIERS,
        old[3].lamports == 0,
        old[3].data@.len() == 0,
        old[1].key@ != old[2].key@,
    ensures
        r == Err::<Option<CreateAccount>, GameError>(GameError::InvalidInstructionData),
{
}

/// Once a challenge between two players has been issued, issuing it again
/// before it is accepted is refused, whatever the stake tier asked for.
pub proof fn lemma_no_second_challenge(
    program_id: Seq<u8>,
    first: Seq<AccountState>,
    between: Seq<AccountState>,
    after: Seq<AccountState>,
    data: Seq<u8>,
    again: Seq<u8>,
    sysvars: Sysvars,
    r1: Result<Option<CreateAccount>, GameError>,
    r2: Result<Option<CreateAccount>, GameError>,
)
    requires
        first.len() >= 4,
        issue_transition(program_id, first, between, data, sysvars, r1),
        r1 is Ok,
        issue_transition(program_id, between, after, again, sysvars, r2),
    ensures
        between[3].lamports > 0,
        r2 == Err::<Option<CreateAccount>, GameError>(GameError::InvalidRequest),
{
}

/// Accepting a genuine challenge (addresses, players and escrowed stake as
/// issued) without the free balance to match its stake fails for lack of
/// funds; a refused instruction leaves the challenge as it was.
pub proof fn lemma_accept_needs_free_balance(
    program_id: Seq<u8>,
    old: Seq<AccountState>,
    new: Seq<AccountState>,
    data: Seq<u8>,
    sysvars: Sysvars,
    r: Result<Option<CreateAccount>, GameError>,
)
    requires
        accept_transition(program_id, old, new, data, sysvars, r),
        old[1].data@.len() == PLAYER_ACC_SIZE,
        old[2].data@.len() == CHALLENGE_ACC_SIZE,
        old[4].data@.len() == PLAYER_ACC_SIZE,
        old[3].lamports == 0,
        old[3].data@.len() == 0,
        address_matches(game_seeds(old[2].key@, data[2]), program_id, old[3].key@),
        ({
            let ch = challenge_of(old[2].data@);
            &&& address_matches(
                challenge_seeds(ch.invitee_id@, ch.invited_id@, data[3]),
                program_id,
                old[2].key@,
            )
            &&& old[1].key == ch.invited_id
            &&& old[4].key == ch.invitee_id
            &&& ch.stake_index < STAKE_TIERS
            &&& old[2].lamports == stake_amount(ch.stake_index as int)
            &&& old[1].lamports < sysvars.minimum_balance + stake_amount(ch.stake_index as int)
        }),
    ensures
        r == Err::<Option<CreateAccount>, GameError>(GameError::InsufficientFunds),
{
}

/// Closing a game that holds `B` between its two participants pays out
/// exactly `B` and empties the game: an unresolved game goes to the other
/// participant, a draw is split in halves (an odd unit to the other
/// participant), and a won game goes to whoever made the last move, the
/// first mover after an odd number of moves.
pub proof fn lemma_close_pays_out_the_game(
    old: Seq<AccountState>,
    new: Seq<AccountState>,
    r: Result<Option<CreateAccount>, GameError>,
)
    requires
        close_transition(old, new, r),
        old[1].data@.len() == PLAYER_ACC_SIZE,
        old[2].data@.len() == GAME_ACC_SIZE,
        old[3].data@.len() == PLAYER_ACC_SIZE,
        old[2].lamports > 0,
        are_game_players(old[1].key@, old[3].key@, game_of(old[2].data@)),
        old[1].key@ != old[3].key@,
        old[1].lamports + old[2].lamports <= u64::MAX,
        old[3].lamports + old[2].lamports <= u64::MAX,
    ensures
        ({
            let g = game_of(old[2].data@);
            let b = old[2].lamports as int;
            let winner = if g.no_of_moves % 2 == 1 {
                g.player1@
            } else {
                g.player2@
            };
            &&& r matches Ok(None)
            &&& new[2].lamports == 0
            &&& zeroed(old[2].data@, new[2].data@)
            &&& new[1].lamports + new[3].lamports == old[1].lamports + old[3].lamports + b
            &&& g.game_status == 0 ==> new[3].lamports == old[3].lamports + b
            &&& g.game_status == 9 ==> new[1].lamports == old[1].lamports + b / 2
                && new[3].lamports == old[3].lamports + (b - b / 2)
            &&& 1 <= g.game_status <= 8 && old[1].key@ == winner ==> new[1].lamports
                == old[1].lamports + b
            &&& 1 <= g.game_status <= 8 && old[3].key@ == winner ==> new[3].lamports
                == old[3].lamports + b
            &&& left_game(old[1].data@, new[1].data@)
            &&& left_game(old[3].data@, new[3].data@)
        }),
{
    let g = game_of(old[2].data@);
    crate::processor::lemma_settlement_conserves(g, old[1].key@, old[2].lamports);
}

} // verus!
