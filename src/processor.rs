use vstd::prelude::*;

use crate::board::{
    board_has_line,
    cells_distinct,
    cells_in_range,
    did_win,
    lemma_local_check_matches_rescan,
    line_cell,
    line_full,
    win_code,
};
use crate::challenge_data::ChallengeData;
use crate::error::GameError;
use crate::game_data::GameData;
use crate::player_data::{spaces, zero_key, PlayerData};
use crate::utils::{
    address_matches,
    are_game_players,
    challenge_seeds,
    game_seeds,
    get_validated_name,
    keys_equal,
    requested_name,
    MAX_NAME_LENGTH,
    verify_challenge_acc,
    verify_game_acc,
    verify_game_players,
};
use vstd::utf8::{encode_utf8, valid_utf8};

verus! {

/// The player whose turn it is: `player1` after an even number of moves.
pub open spec fn turn_key(g: GameData) -> Seq<u8> {
    if g.no_of_moves % 2 == 0 {
        g.player1@
    } else {
        g.player2@
    }
}

/// `cell` occurs among the first `n` moves.
pub open spec fn cell_taken(moves: Seq<u8>, n: int, cell: u8) -> bool {
    exists|i: int| 0 <= i < n && #[trigger] moves[i] == cell
}

/// Why a move of `cell` by the player at `player_key`, whose record is
/// `player`, is refused on the game at `game_key`; `None` when it is legal.
pub open spec fn move_error(
    g: GameData,
    game_key: Seq<u8>,
    player: PlayerData,
    player_key: Seq<u8>,
    cell: u8,
) -> Option<GameError> {
    let n = g.no_of_moves as int;
    if player.current_game@ != game_key || turn_key(g) != player_key {
        Some(GameError::Unauthorized)
    } else if cell > 8 || n >= 9 || g.game_status != 0 || !cells_in_range(g.moves@, n)
        || cell_taken(g.moves@, n, cell) {
        Some(GameError::InvalidRequest)
    } else {
        None
    }
}

/// The status of a game after `n` moves: from the fifth move on, the line
/// code of the last move, or 9 when the board is full without one.
pub open spec fn status_after(moves: Seq<u8>, n: int) -> int {
    if n >= 5 {
        if n == 9 && win_code(moves, n) == 0 {
            9
        } else {
            win_code(moves, n)
        }
    } else {
        0
    }
}

/// `h` is the game `g` once `cell` has been played.
pub open spec fn is_played(g: GameData, cell: u8, h: GameData) -> bool {
    let n = g.no_of_moves as int;
    &&& h.player1 == g.player1
    &&& h.player2 == g.player2
    &&& h.no_of_moves == n + 1
    &&& h.moves@ == g.moves@.update(n, cell)
    &&& h.game_status == status_after(h.moves@, n + 1)
}

/// Plays `cell` for the player at `player_key` on the game at `game_key`.
/// A refused move leaves the game as it was.
pub fn play(
    game: &mut GameData,
    game_key: &[u8; 32],
    player: &PlayerData,
    player_key: &[u8; 32],
    cell: u8,
) -> (r: Result<(), GameError>)
    ensures
        match move_error(*old(game), game_key@, *player, player_key@, cell) {
            Some(e) => r == Err::<(), GameError>(e) && *final(game) == *old(game),
            None => r is Ok && is_played(*old(game), cell, *final(game)),
        },
        // a resolved game takes no move
        old(game).game_status != 0 ==> r is Err && *final(game) == *old(game),
        old(game).game_status != 0 && player.current_game@ == game_key@ && turn_key(*old(game))
            == player_key@ ==> r == Err::<(), GameError>(GameError::InvalidRequest),
        // the moves played stay on the board and distinct
        r is Ok ==> cells_in_range(final(game).moves@, final(game).no_of_moves as int),
        r is Ok && cells_distinct(old(game).moves@, old(game).no_of_moves as int) ==> cells_distinct(
            final(game).moves@,
            final(game).no_of_moves as int,
        ),
{
    let ghost g0 = *game;
    let n = game.no_of_moves as usize;
    let key = if n % 2 == 0 {
        &game.player1
    } else {
        &game.player2
    };
    if !keys_equal(game_key, &player.current_game) || !keys_equal(key, player_key) {
        return Err(GameError::Unauthorized);
    }
    if cell > 8 || n >= 9 || game.game_status > 0 {
        return Err(GameError::InvalidRequest);
    }
    let mut i: usize = 0;
    while i < n
        invariant
            *game == g0,
            n == g0.no_of_moves as int,
            n < 9,
            cell <= 8,
            g0.game_status == 0,
            player.current_game@ == game_key@,
            turn_key(g0) == player_key@,
            0 <= i <= n,
            forall|j: int| 0 <= j < i ==> #[trigger] g0.moves@[j] < 9 && g0.moves@[j] != cell,
        decreases n - i,
    {
        if game.moves[i] == cell || game.moves[i] > 8 {
            proof {
                if g0.moves@[i as int] == cell {
                    assert(cell_taken(g0.moves@, n as int, cell));
                } else {
                    assert(!(g0.moves@[i as int] < 9));
                }
            }
            return Err(GameError::InvalidRequest);
        }
        i = i + 1;
    }
    proof {
        if cell_taken(g0.moves@, n as int, cell) {
            let w = choose|w: int| 0 <= w < n && #[trigger] g0.moves@[w] == cell;
            assert(g0.moves@[w] != cell);
        }
    }
    game.moves[n] = cell;
    game.no_of_moves = game.no_of_moves + 1;
    assert(game.moves@ == g0.moves@.update(n as int, cell));
    if game.no_of_moves >= 5 {
        let res = did_win(&game.moves, game.no_of_moves);
        game.game_status = if game.no_of_moves == 9 && res == 0 {
            9
        } else {
            res
        };
    }
    proof {
        if cells_distinct(g0.moves@, n as int) {
            assert forall|a: int, b: int|
                0 <= a < b < n + 1 implies #[trigger] game.moves@[a] != #[trigger] game.moves@[b] by {
                if b == n {
                    assert(g0.moves@[a] != cell);
                }
            }
        }
    }
    Ok(())
}

/// With fewer than five moves on the board, the player who moved last holds
/// at most two cells, so no line.
proof fn lemma_no_line_before_fifth_move(moves: Seq<u8>, n: int, k: int)
    requires
        1 <= n <= 4,
        1 <= k <= 8,
    ensures
        !line_full(moves, n, (n - 1) % 2, k),
{
    let p = (n - 1) % 2;
    if line_full(moves, n, p, k) {
        let c0 = line_cell(k, 0);
        let c1 = line_cell(k, 1);
        let c2 = line_cell(k, 2);
        let i0 = choose|i: int| 0 <= i < n && i % 2 == p && #[trigger] moves[i] as int == c0;
        let i1 = choose|i: int| 0 <= i < n && i % 2 == p && #[trigger] moves[i] as int == c1;
        let i2 = choose|i: int| 0 <= i < n && i % 2 == p && #[trigger] moves[i] as int == c2;
        assert(moves[i0] as int == c0 && moves[i1] as int == c1 && moves[i2] as int == c2);
        assert(c0 != c1 && c1 != c2 && c0 != c2);
        assert(i0 != i1 && i1 != i2 && i0 != i2);
        assert(false);
    }
}

/// On a legal game (cells on the board, no complete line before the last
/// move), the status that the moves leave reports a completed line exactly
/// when a full rescan of the board finds one.
pub proof fn lemma_status_matches_rescan(moves: Seq<u8>, n: int)
    requires
        1 <= n <= 9,
        n <= moves.len(),
        cells_in_range(moves, n),
        !board_has_line(moves, n - 1),
    ensures
        (1 <= status_after(moves, n) <= 8) <==> board_has_line(moves, n),
{
    lemma_local_check_matches_rescan(moves, n);
    if n < 5 {
        if win_code(moves, n) != 0 {
            lemma_no_line_before_fifth_move(moves, n, win_code(moves, n));
        }
    } else {
        let w = win_code(moves, n);
        assert(0 <= w <= 8);
    }
}

/// What settling a game hands out: (to the closing player, to the opponent).
/// An unresolved game goes to the opponent, a draw is split (an odd unit to
/// the opponent), a won game goes to whoever made the last move.
pub open spec fn payout(g: GameData, player_key: Seq<u8>, balance: u64) -> (int, int) {
    if g.game_status == 0 {
        (0, balance as int)
    } else if g.game_status == 9 {
        (balance as int / 2, balance as int - balance as int / 2)
    } else {
        let winner = if g.no_of_moves % 2 == 0 {
            g.player2@
        } else {
            g.player1@
        };
        if player_key == winner {
            (balance as int, 0)
        } else {
            (0, balance as int)
        }
    }
}

/// The amounts that settling a game pays out.
#[derive(Debug, Clone, Copy, PartialEq, Eq)]
pub struct Payout {
    /// Paid to the player who closes the game.
    pub to_player: u64,
    /// Paid to the other participant.
    pub to_opponent: u64,
}

/// Splits the balance `balance` of `game`, closed by the player at `player_key`.
pub fn settle(game: &GameData, player_key: &[u8; 32], balance: u64) -> (r: Payout)
    ensures
        (r.to_player as int, r.to_opponent as int) == payout(*game, player_key@, balance),
        r.to_player + r.to_opponent == balance,
{
    if game.game_status == 0 {
        Payout { to_player: 0, to_opponent: balance }
    } else if game.game_status == 9 {
        let half = balance / 2;
        Payout { to_player: half, to_opponent: balance - half }
    } else {
        let winner = if game.no_of_moves % 2 == 0 {
            &game.player2
        } else {
            &game.player1
        };
        if keys_equal(player_key, winner) {
            Payout { to_player: balance, to_opponent: 0 }
        } else {
            Payout { to_player: 0, to_opponent: balance }
        }
    }
}

/// Settlement hands out the whole balance of the game, no more and no less.
pub proof fn lemma_settlement_conserves(g: GameData, player_key: Seq<u8>, balance: u64)
    ensures
        payout(g, player_key, balance).0 + payout(g, player_key, balance).1 == balance,
        payout(g, player_key, balance).0 >= 0,
        payout(g, player_key, balance).1 >= 0,
{
}


/// Shortest name a player may register, in bytes once trimmed.
pub const MIN_NAME_LENGTH: usize = 4;

/// Number of stake tiers.
pub const STAKE_TIERS: u8 = 3;

/// The stake of tier `i`, in the ledger's smallest balance unit.
pub open spec fn stake_amount(i: int) -> int {
    if i == 0 {
        500_000_000
    } else if i == 1 {
        1_000_000_000
    } else {
        2_000_000_000
    }
}

/// The stake of tier `i`.
pub fn stake_for(i: u8) -> (r: u64)
    requires
        i < STAKE_TIERS,
    ensures
        r == stake_amount(i as int),
{
    if i == 0 {
        500_000_000
    } else if i == 1 {
        1_000_000_000
    } else {
        2_000_000_000
    }
}

/// A new player record holding the name that `name_buf` asks for.
pub open spec fn is_registered(name_buf: Seq<u8>, p: PlayerData) -> bool {
    let name = encode_utf8(requested_name(name_buf));
    &&& p.name@ == name + spaces(20 - name.len())
    &&& p.invitation_count == 0
    &&& p.current_game@ == zero_key()
}

/// The name `name_buf` is acceptable: UTF-8 that holds from four to 20
/// bytes once trimmed.
pub open spec fn name_is_valid(name_buf: Seq<u8>) -> bool {
    valid_utf8(name_buf) && MIN_NAME_LENGTH <= encode_utf8(requested_name(name_buf)).len()
        <= MAX_NAME_LENGTH
}

/// The record of a newly registered player, from the raw name bytes.
pub fn register_player(name_buf: &[u8]) -> (r: Result<PlayerData, GameError>)
    ensures
        r is Ok <==> name_is_valid(name_buf@),
        r matches Ok(p) ==> is_registered(name_buf@, p),
        r matches Err(e) ==> e == GameError::InvalidInstructionData,
{
    let name = get_validated_name(name_buf, MIN_NAME_LENGTH)?;
    let bytes = name.as_str().as_bytes();
    let mut player = PlayerData { name: [0u8; 20], invitation_count: 0, current_game: [0u8; 32] };
    player.set_name(bytes);
    assert(player.current_game@ == zero_key());
    Ok(player)
}

/// Why a challenge cannot be issued; `None` when it can.
pub open spec fn issue_error(
    program_id: Seq<u8>,
    player_key: Seq<u8>,
    player_lamports: u64,
    opponent_key: Seq<u8>,
    opponent: PlayerData,
    challenge_key: Seq<u8>,
    challenge_lamports: u64,
    challenge_bump: u8,
    stake_index: u8,
    minimum_balance: u64,
) -> Option<GameError> {
    if challenge_lamports > 0 || player_key == opponent_key {
        Some(GameError::InvalidRequest)
    } else if stake_index >= STAKE_TIERS {
        Some(GameError::InvalidInstructionData)
    } else if !address_matches(
        challenge_seeds(player_key, opponent_key, challenge_bump),
        program_id,
        challenge_key,
    ) {
        Some(GameError::Unauthorized)
    } else if player_lamports < minimum_balance + stake_amount(stake_index as int) {
        Some(GameError::InsufficientFunds)
    } else if opponent.invitation_count == 255 {
        Some(GameError::LogicError)
    } else {
        None
    }
}

/// What issuing a challenge leaves behind.
#[derive(Debug, Clone, Copy, PartialEq, Eq)]
pub struct Issued {
    /// The new challenge record.
    pub challenge: ChallengeData,
    /// The challenged player's record.
    pub opponent: PlayerData,
    /// The challenger's balance once the stake is escrowed.
    pub player_lamports: u64,
    /// The challenge record's balance: the stake.
    pub challenge_lamports: u64,
}

/// Issues a challenge from the player at `player_key` to the one at
/// `opponent_key`, escrowing the stake of tier `stake_index` in the challenge
/// record at `challenge_key`. `minimum_balance` is the reserve that the
/// challenger's record keeps.
pub fn issue_challenge(
    program_id: &[u8; 32],
    player_key: &[u8; 32],
    player_lamports: u64,
    opponent_key: &[u8; 32],
    opponent: &PlayerData,
    challenge_key: &[u8; 32],
    challenge_lamports: u64,
    challenge_bump: u8,
    stake_index: u8,
    minimum_balance: u64,
    timestamp: u64,
) -> (r: Result<Issued, GameError>)
    ensures
        match issue_error(
            program_id@,
            player_key@,
            player_lamports,
            opponent_key@,
            *opponent,
            challenge_key@,
            challenge_lamports,
            challenge_bump,
            stake_index,
            minimum_balance,
        ) {
            Some(e) => r == Err::<Issued, GameError>(e),
            None => r matches Ok(out) && {
                &&& out.challenge.invited_id == *opponent_key
                &&& out.challenge.invitee_id == *player_key
                &&& out.challenge.stake_index == stake_index
                &&& out.challenge.timestamp == timestamp
                &&& out.opponent.invitation_count == opponent.invitation_count + 1
                &&& out.opponent.name == opponent.name
                &&& out.opponent.current_game == opponent.current_game
                &&& out.challenge_lamports == stake_amount(stake_index as int)
                &&& out.player_lamports == player_lamports - stake_amount(stake_index as int)
            },
        },
{
    if challenge_lamports > 0 || keys_equal(player_key, opponent_key) {
        return Err(GameError::InvalidRequest);
    }
    if stake_index >= STAKE_TIERS {
        return Err(GameError::InvalidInstructionData);
    }
    if !verify_challenge_acc(player_key, opponent_key, challenge_key, challenge_bump, program_id) {
        return Err(GameError::Unauthorized);
    }
    let game_share = stake_for(stake_index);
    if player_lamports < minimum_balance || player_lamports - minimum_balance < game_share {
        return Err(GameError::InsufficientFunds);
    }
    let mut opponent_data = *opponent;
    opponent_data.inc_invitation()?;
    let mut challenge = ChallengeData {
        invited_id: [0u8; 32],
        invitee_id: [0u8; 32],
        stake_index,
        timestamp,
    };
    challenge.set_players(opponent_key, player_key);
    Ok(
        Issued {
            challenge,
            opponent: opponent_data,
            player_lamports: player_lamports - game_share,
            challenge_lamports: game_share,
        },
    )
}

/// Why a challenge cannot be accepted; `None` when it can.
pub open spec fn accept_error(
    program_id: Seq<u8>,
    player_key: Seq<u8>,
    player: PlayerData,
    player_lamports: u64,
    challenge_key: Seq<u8>,
    challenge_bump: u8,
    challenge: ChallengeData,
    challenge_lamports: u64,
    game_key: Seq<u8>,
    game_bump: u8,
    opponent_key: Seq<u8>,
    minimum_balance: u64,
) -> Option<GameError> {
    if !address_matches(game_seeds(challenge_key, game_bump), program_id, game_key) {
        Some(GameError::Unauthorized)
    } else if !address_matches(
        challenge_seeds(challenge.invitee_id@, challenge.invited_id@, challenge_bump),
        program_id,
        challenge_key,
    ) {
        Some(GameError::Unauthorized)
    } else if player_key != challenge.invited_id@ || opponent_key != challenge.invitee_id@ {
        Some(GameError::Unauthorized)
    } else if challenge.stake_index >= STAKE_TIERS || challenge_lamports != stake_amount(
        challenge.stake_index as int,
    ) {
        Some(GameError::InvalidRequest)
    } else if player_lamports < minimum_balance + stake_amount(challenge.stake_index as int) {
        Some(GameError::InsufficientFunds)
    } else if player.invitation_count == 0 {
        Some(GameError::LogicError)
    } else {
        None
    }
}

/// What accepting a challenge leaves behind.
#[derive(Debug, Clone, Copy, PartialEq, Eq)]
pub struct Accepted {
    /// The new game record.
    pub game: GameData,
    /// The accepting player's record.
    pub player: PlayerData,
    /// The challenger's record.
    pub opponent: PlayerData,
    /// The accepting player's balance once the stake is escrowed.
    pub player_lamports: u64,
    /// The game record's balance: both stakes.
    pub game_lamports: u64,
}

/// Accepts the challenge at `challenge_key` (derived with `challenge_bump`)
/// for the challenged player at `player_key`, whose challenger is at
/// `opponent_key`: both stakes move to the game record at `game_key`, and `starter`, a parity
/// from outside, picks who moves first (even: the challenger).
pub fn accept_challenge(
    program_id: &[u8; 32],
    player_key: &[u8; 32],
    player: &PlayerData,
    player_lamports: u64,
    challenge_key: &[u8; 32],
    challenge_bump: u8,
    challenge: &ChallengeData,
    challenge_lamports: u64,
    game_key: &[u8; 32],
    game_bump: u8,
    opponent_key: &[u8; 32],
    opponent: &PlayerData,
    minimum_balance: u64,
    starter: u8,
) -> (r: Result<Accepted, GameError>)
    ensures
        match accept_error(
            program_id@,
            player_key@,
            *player,
            player_lamports,
            challenge_key@,
            challenge_bump,
            *challenge,
            challenge_lamports,
            game_key@,
            game_bump,
            opponent_key@,
            minimum_balance,
        ) {
            Some(e) => r == Err::<Accepted, GameError>(e),
            None => r matches Ok(out) && {
                let stake = stake_amount(challenge.stake_index as int);
                &&& starter % 2 == 0 ==> out.game.player1 == challenge.invitee_id
                    && out.game.player2 == challenge.invited_id
                &&& starter % 2 == 1 ==> out.game.player1 == challenge.invited_id
                    && out.game.player2 == challenge.invitee_id
                &&& out.game.no_of_moves == 0
                &&& out.game.game_status == 0
                &&& out.game.moves@ == Seq::new(9, |i: int| 0u8)
                &&& out.player.invitation_count == player.invitation_count - 1
                &&& out.player.name == player.name
                &&& out.player.current_game == *game_key
                &&& out.opponent.invitation_count == opponent.invitation_count
                &&& out.opponent.name == opponent.name
                &&& out.opponent.current_game == *game_key
                &&& out.player_lamports == player_lamports - stake
                &&& out.game_lamports == 2 * stake
            },
        },
{
    if !verify_game_acc(challenge_key, game_key, game_bump, program_id) {
        return Err(GameError::Unauthorized);
    }
    if !verify_challenge_acc(
        &challenge.invitee_id,
        &challenge.invited_id,
        challenge_key,
        challenge_bump,
        program_id,
    ) {
        return Err(GameError::Unauthorized);
    }
    if !keys_equal(player_key, &challenge.invited_id) || !keys_equal(
        opponent_key,
        &challenge.invitee_id,
    ) {
        return Err(GameError::Unauthorized);
    }
    if challenge.stake_index >= STAKE_TIERS {
        return Err(GameError::InvalidRequest);
    }
    let game_share = stake_for(challenge.stake_index);
    if challenge_lamports != game_share {
        return Err(GameError::InvalidRequest);
    }
    if player_lamports < minimum_balance || player_lamports - minimum_balance < game_share {
        return Err(GameError::InsufficientFunds);
    }
    let mut player_data = *player;
    player_data.dec_invitation()?;
    let mut game = GameData {
        player1: [0u8; 32],
        player2: [0u8; 32],
        no_of_moves: 0,
        game_status: 0,
        moves: [0u8; 9],
    };
    if starter % 2 == 0 {
        game.set_players(&challenge.invitee_id, &challenge.invited_id);
    } else {
        game.set_players(&challenge.invited_id, &challenge.invitee_id);
    }
    assert(game.moves@ == Seq::new(9, |i: int| 0u8));
    player_data.set_current_game(game_key);
    let mut opponent_data = *opponent;
    opponent_data.set_current_game(game_key);
    Ok(
        Accepted {
            game,
            player: player_data,
            opponent: opponent_data,
            player_lamports: player_lamports - game_share,
            game_lamports: game_share * 2,
        },
    )
}


/// What closing a game leaves behind.
#[derive(Debug, Clone, Copy, PartialEq, Eq)]
pub struct Settled {
    /// The closing player's record, in no game.
    pub player: PlayerData,
    /// The other participant's record, in no game.
    pub opponent: PlayerData,
    /// The closing player's balance once paid.
    pub player_lamports: u64,
    /// The other participant's balance once paid.
    pub opponent_lamports: u64,
}

/// Closes `game`, whose record holds `game_lamports`, on behalf of the player
/// at `player_key` with the other participant at `opponent_key`, and pays out
/// the balance. `None` when the game holds nothing, so there is nothing to do.
pub fn close_game(
    player_key: &[u8; 32],
    player: &PlayerData,
    player_lamports: u64,
    opponent_key: &[u8; 32],
    opponent: &PlayerData,
    opponent_lamports: u64,
    game: &GameData,
    game_lamports: u64,
) -> (r: Result<Option<Settled>, GameError>)
    ensures
        game_lamports == 0 ==> r == Ok::<Option<Settled>, GameError>(None),
        game_lamports > 0 && !are_game_players(player_key@, opponent_key@, *game) ==> r == Err::<
            Option<Settled>,
            GameError,
        >(GameError::Unauthorized),
        game_lamports > 0 && are_game_players(player_key@, opponent_key@, *game) ==> {
            let pay = payout(*game, player_key@, game_lamports);
            if player_lamports + pay.0 > u64::MAX || opponent_lamports + pay.1 > u64::MAX {
                r == Err::<Option<Settled>, GameError>(GameError::LogicError)
            } else {
                r matches Ok(Some(out)) && {
                    &&& out.player_lamports == player_lamports + pay.0
                    &&& out.opponent_lamports == opponent_lamports + pay.1
                    &&& out.player.current_game@ == zero_key()
                    &&& out.player.name == player.name
                    &&& out.player.invitation_count == player.invitation_count
                    &&& out.opponent.current_game@ == zero_key()
                    &&& out.opponent.name == opponent.name
                    &&& out.opponent.invitation_count == opponent.invitation_count
                }
            }
        },
        // the whole balance of the game, and nothing else, reaches the players
        r matches Ok(Some(out)) ==> out.player_lamports + out.opponent_lamports == player_lamports
            + opponent_lamports + game_lamports,
{
    if game_lamports == 0 {
        return Ok(None);
    }
    if !verify_game_players(player_key, opponent_key, game) {
        return Err(GameError::Unauthorized);
    }
    let pay = settle(game, player_key, game_lamports);
    let to_player = match player_lamports.checked_add(pay.to_player) {
        Some(v) => v,
        None => return Err(GameError::LogicError),
    };
    let to_opponent = match opponent_lamports.checked_add(pay.to_opponent) {
        Some(v) => v,
        None => return Err(GameError::LogicError),
    };
    let mut player_data = *player;
    let mut opponent_data = *opponent;
    player_data.clear_current_game();
    opponent_data.clear_current_game();
    Ok(
        Some(
            Settled {
                player: player_data,
                opponent: opponent_data,
                player_lamports: to_player,
                opponent_lamports: to_opponent,
            },
        ),
    )
}

/// Moves every unit of a player record's balance above the reserve
/// `minimum_balance` to the wallet. Returns the new balances of the record
/// and of the wallet.
pub fn withdraw_excess(player_lamports: u64, wallet_lamports: u64, minimum_balance: u64) -> (r:
    Result<(u64, u64), GameError>)
    ensures
        player_lamports < minimum_balance ==> r == Err::<(u64, u64), GameError>(
            GameError::InsufficientFunds,
        ),
        player_lamports >= minimum_balance && wallet_lamports + (player_lamports - minimum_balance)
            > u64::MAX ==> r == Err::<(u64, u64), GameError>(GameError::LogicError),
        player_lamports >= minimum_balance && wallet_lamports + (player_lamports - minimum_balance)
            <= u64::MAX ==> r == Ok::<(u64, u64), GameError>(
            (minimum_balance, (wallet_lamports + (player_lamports - minimum_balance)) as u64),
        ),
{
    if player_lamports < minimum_balance {
        return Err(GameError::InsufficientFunds);
    }
    match wallet_lamports.checked_add(player_lamports - minimum_balance) {
        Some(w) => Ok((minimum_balance, w)),
        None => Err(GameError::LogicError),
    }
}

/// Moves the whole balance of a player record to the wallet. Returns the
/// wallet's new balance.
pub fn close_account(player_lamports: u64, wallet_lamports: u64) -> (r: Result<u64, GameError>)
    ensures
        wallet_lamports + player_lamports > u64::MAX ==> r == Err::<u64, GameError>(
            GameError::LogicError,
        ),
        wallet_lamports + player_lamports <= u64::MAX ==> r == Ok::<u64, GameError>(
            (wallet_lamports + player_lamports) as u64,
        ),
{
    match wallet_lamports.checked_add(player_lamports) {
        Some(w) => Ok(w),
        None => Err(GameError::LogicError),
    }
}

} // verus!
