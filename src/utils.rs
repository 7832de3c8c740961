use vstd::prelude::*;
use vstd::string::StringSliceAdditionalSpecFns;
use vstd::utf8::{decode_utf8, encode_utf8, valid_utf8};

use crate::error::GameError;
use crate::game_data::GameData;

verus! {

/// Sets every byte of `data` to zero.
pub fn zero_fill(data: &mut Vec<u8>)
    ensures
        final(data)@.len() == old(data)@.len(),
        forall|i: int| 0 <= i < final(data)@.len() ==> #[trigger] final(data)@[i] == 0,
{
    let mut i: usize = 0;
    while i < data.len()
        invariant
            data@.len() == old(data)@.len(),
            0 <= i <= data@.len(),
            forall|j: int| 0 <= j < i ==> #[trigger] data@[j] == 0,
        decreases data@.len() - i,
    {
        data.set(i, 0);
        i = i + 1;
    }
}


/// The seed that tags player addresses: "player".
pub open spec fn player_tag() -> Seq<u8> {
    seq![112u8, 108u8, 97u8, 121u8, 101u8, 114u8]
}

/// The seed that tags challenge addresses: "challenge".
pub open spec fn challenge_tag() -> Seq<u8> {
    seq![99u8, 104u8, 97u8, 108u8, 108u8, 101u8, 110u8, 103u8, 101u8]
}

/// The seed that tags game addresses: "game".
pub open spec fn game_tag() -> Seq<u8> {
    seq![103u8, 97u8, 109u8, 101u8]
}

/// Seeds of the address of the player record owned by `wallet`.
pub open spec fn player_seeds(wallet: Seq<u8>, bump: u8) -> Seq<Seq<u8>> {
    seq![wallet, player_tag(), seq![bump]]
}

/// Seeds of the address of the challenge from `player` to `opponent`.
pub open spec fn challenge_seeds(player: Seq<u8>, opponent: Seq<u8>, bump: u8) -> Seq<Seq<u8>> {
    seq![player, opponent, challenge_tag(), seq![bump]]
}

/// Seeds of the address of the game that follows `challenge`.
pub open spec fn game_seeds(challenge: Seq<u8>, bump: u8) -> Seq<Seq<u8>> {
    seq![challenge, game_tag(), seq![bump]]
}

/// The address derived from `seeds` under `program_id`, or `None` where the
/// derivation yields no valid address.
pub uninterp spec fn program_address(seeds: Seq<Seq<u8>>, program_id: Seq<u8>) -> Option<Seq<u8>>;

/// Relies on Pubkey::create_program_address: it hashes the seeds with the
/// program id, so its outcome depends on these values alone.
#[verifier::external_body]
fn create_program_address(seeds: &Vec<Vec<u8>>, program_id: &[u8; 32]) -> (r: Option<[u8; 32]>)
    ensures
        match r {
            Some(k) => program_address(seeds.deep_view(), program_id@) == Some(k@),
            None => program_address(seeds.deep_view(), program_id@) is None,
        },
{
    let refs: Vec<&[u8]> = seeds.iter().map(|s| s.as_slice()).collect();
    let program = solana_program::pubkey::Pubkey::new_from_array(*program_id);
    solana_program::pubkey::Pubkey::create_program_address(&refs, &program).ok().map(
        |k| k.to_bytes(),
    )
}

/// The claimed address `claimed` is the one derived from `seeds` under `program_id`.
pub open spec fn address_matches(seeds: Seq<Seq<u8>>, program_id: Seq<u8>, claimed: Seq<u8>) -> bool {
    program_address(seeds, program_id) == Some(claimed)
}

/// The bytes of a key as a vector.
fn key_vec(key: &[u8; 32]) -> (r: Vec<u8>)
    ensures
        r@ == key@,
{
    let mut r: Vec<u8> = Vec::new();
    let mut i: usize = 0;
    while i < 32
        invariant
            0 <= i <= 32,
            r@ == key@.subrange(0, i as int),
        decreases 32 - i,
    {
        r.push(key[i]);
        i = i + 1;
    }
    r
}

/// A byte vector's deep view is its view.
proof fn lemma_bytes_deep_view(v: Vec<u8>)
    ensures
        v.deep_view() == v@,
{
    assert(v.deep_view() =~= v@);
}

/// The seed list of a player address.
pub fn player_seed_list(wallet: &[u8; 32], bump: u8) -> (r: Vec<Vec<u8>>)
    ensures
        r.deep_view() == player_seeds(wallet@, bump),
{
    let mut r: Vec<Vec<u8>> = Vec::new();
    r.push(key_vec(wallet));
    r.push(vec![112u8, 108u8, 97u8, 121u8, 101u8, 114u8]);
    r.push(vec![bump]);
    proof {
        lemma_bytes_deep_view(r@[0]);
        lemma_bytes_deep_view(r@[1]);
        lemma_bytes_deep_view(r@[2]);
    }
    assert(r@[0]@ == wallet@ && r@[1]@ == player_tag() && r@[2]@ == seq![bump]);
    assert(r.deep_view() =~= player_seeds(wallet@, bump));
    r
}

/// The seed list of a challenge address.
pub fn challenge_seed_list(player: &[u8; 32], opponent: &[u8; 32], bump: u8) -> (r: Vec<Vec<u8>>)
    ensures
        r.deep_view() == challenge_seeds(player@, opponent@, bump),
{
    let mut r: Vec<Vec<u8>> = Vec::new();
    r.push(key_vec(player));
    r.push(key_vec(opponent));
    r.push(vec![99u8, 104u8, 97u8, 108u8, 108u8, 101u8, 110u8, 103u8, 101u8]);
    r.push(vec![bump]);
    proof {
        lemma_bytes_deep_view(r@[0]);
        lemma_bytes_deep_view(r@[1]);
        lemma_bytes_deep_view(r@[2]);
        lemma_bytes_deep_view(r@[3]);
    }
    assert(r@[0]@ == player@ && r@[1]@ == opponent@);
    assert(r@[2]@ == challenge_tag() && r@[3]@ == seq![bump]);
    assert(r.deep_view() =~= challenge_seeds(player@, opponent@, bump));
    r
}

/// The seed list of a game address.
pub fn game_seed_list(challenge: &[u8; 32], bump: u8) -> (r: Vec<Vec<u8>>)
    ensures
        r.deep_view() == game_seeds(challenge@, bump),
{
    let mut r: Vec<Vec<u8>> = Vec::new();
    r.push(key_vec(challenge));
    r.push(vec![103u8, 97u8, 109u8, 101u8]);
    r.push(vec![bump]);
    proof {
        lemma_bytes_deep_view(r@[0]);
        lemma_bytes_deep_view(r@[1]);
        lemma_bytes_deep_view(r@[2]);
    }
    assert(r@[0]@ == challenge@ && r@[1]@ == game_tag() && r@[2]@ == seq![bump]);
    assert(r.deep_view() =~= game_seeds(challenge@, bump));
    r
}

/// The first 32 bytes of both keys agree.
pub fn same_keys(key1: &[u8], key2: &[u8]) -> (r: bool)
    requires
        key1@.len() >= 32,
        key2@.len() >= 32,
    ensures
        r == (key1@.subrange(0, 32) == key2@.subrange(0, 32)),
{
    let mut i: usize = 0;
    while i < 32
        invariant
            key1@.len() >= 32,
            key2@.len() >= 32,
            0 <= i <= 32,
            forall|j: int| 0 <= j < i ==> key1@[j] == key2@[j],
        decreases 32 - i,
    {
        if key1[i] != key2[i] {
            assert(key1@.subrange(0, 32)[i as int] != key2@.subrange(0, 32)[i as int]);
            return false;
        }
        i = i + 1;
    }
    assert(key1@.subrange(0, 32) =~= key2@.subrange(0, 32));
    true
}

/// Two keys are equal.
pub fn keys_equal(a: &[u8; 32], b: &[u8; 32]) -> (r: bool)
    ensures
        r == (*a == *b),
        r == (a@ == b@),
{
    let same = same_keys(a, b);
    assert(a@.subrange(0, 32) == a@);
    assert(b@.subrange(0, 32) == b@);
    proof {
        if a@ == b@ {
            assert(*a =~= *b);
        }
    }
    same
}

/// Checks a claimed address against the one derived from `seeds`.
fn verify_address(seeds: &Vec<Vec<u8>>, claimed: &[u8; 32], program_id: &[u8; 32]) -> (r: bool)
    ensures
        r == address_matches(seeds.deep_view(), program_id@, claimed@),
{
    match create_program_address(seeds, program_id) {
        Some(key) => {
            let same = same_keys(&key, claimed);
            assert(key@.subrange(0, 32) == key@);
            assert(claimed@.subrange(0, 32) == claimed@);
            proof {
                if key@ == claimed@ {
                    assert(key =~= *claimed);
                }
            }
            same
        },
        None => false,
    }
}

/// The player record at `player_acc_id` belongs to `wallet_id`.
pub fn verify_player_acc(
    wallet_id: &[u8; 32],
    player_acc_id: &[u8; 32],
    bump: u8,
    program_id: &[u8; 32],
) -> (r: bool)
    ensures
        r == address_matches(player_seeds(wallet_id@, bump), program_id@, player_acc_id@),
{
    let seeds = player_seed_list(wallet_id, bump);
    verify_address(&seeds, player_acc_id, program_id)
}

/// The challenge record at `challenge_acc_id` is the one from `player_acc_id`
/// to `opponent_acc_id`.
pub fn verify_challenge_acc(
    player_acc_id: &[u8; 32],
    opponent_acc_id: &[u8; 32],
    challenge_acc_id: &[u8; 32],
    bump: u8,
    program_id: &[u8; 32],
) -> (r: bool)
    ensures
        r == address_matches(
            challenge_seeds(player_acc_id@, opponent_acc_id@, bump),
            program_id@,
            challenge_acc_id@,
        ),
{
    let seeds = challenge_seed_list(player_acc_id, opponent_acc_id, bump);
    verify_address(&seeds, challenge_acc_id, program_id)
}

/// The game record at `game_acc_id` is the one that follows `challenge_acc_id`.
pub fn verify_game_acc(
    challenge_acc_id: &[u8; 32],
    game_acc_id: &[u8; 32],
    bump: u8,
    program_id: &[u8; 32],
) -> (r: bool)
    ensures
        r == address_matches(game_seeds(challenge_acc_id@, bump), program_id@, game_acc_id@),
{
    let seeds = game_seed_list(challenge_acc_id, bump);
    verify_address(&seeds, game_acc_id, program_id)
}

/// The two callers are exactly the two participants of the game, in either order.
pub open spec fn are_game_players(player: Seq<u8>, opponent: Seq<u8>, game: GameData) -> bool {
    (player == game.player1@ && opponent == game.player2@) || (opponent == game.player1@
        && player == game.player2@)
}

/// Checks that `player_id` and `opponent_id` are the two participants of `game`.
pub fn verify_game_players(player_id: &[u8; 32], opponent_id: &[u8; 32], game: &GameData) -> (r:
    bool)
    ensures
        r == are_game_players(player_id@, opponent_id@, *game),
{
    let p1 = same_keys(player_id, &game.player1);
    let o2 = same_keys(opponent_id, &game.player2);
    let o1 = same_keys(opponent_id, &game.player1);
    let p2 = same_keys(player_id, &game.player2);
    assert(player_id@.subrange(0, 32) == player_id@);
    assert(opponent_id@.subrange(0, 32) == opponent_id@);
    assert(game.player1@.subrange(0, 32) == game.player1@);
    assert(game.player2@.subrange(0, 32) == game.player2@);
    (p1 && o2) || (o1 && p2)
}

/// The parity that picks the first mover, from the clock's slot; 0 when
/// the clock could not be read.
pub fn get_starter(slot: Option<u64>) -> (r: u8)
    ensures
        r == match slot {
            Some(s) => s % 2,
            None => 0,
        },
{
    match slot {
        Some(s) => (s % 2) as u8,
        None => 0,
    }
}

/// A challenge's timestamp, from the clock's signed Unix time: the same bits
/// read as unsigned.
pub fn get_timestamp(unix_timestamp: i64) -> (r: u64)
    ensures
        unix_timestamp >= 0 ==> r == unix_timestamp,
        unix_timestamp < 0 ==> r == unix_timestamp + 0x1_0000_0000_0000_0000,
{
    if unix_timestamp >= 0 {
        unix_timestamp as u64
    } else {
        let magnitude = (-(unix_timestamp + 1)) as u64;
        u64::MAX - magnitude
    }
}

/// What is left of a string once leading and trailing white space is removed.
pub uninterp spec fn trimmed(s: Seq<char>) -> Seq<char>;

/// Relies on std::str::from_utf8: it accepts exactly the valid UTF-8 byte
/// strings and then views the same bytes as text.
#[verifier::external_body]
fn utf8_str(b: &[u8]) -> (r: Option<&str>)
    ensures
        r is Some <==> valid_utf8(b@),
        r matches Some(s) ==> s.spec_bytes() == b@,
{
    std::str::from_utf8(b).ok()
}

/// Relies on str::trim: the result is the argument with white space removed
/// at both ends, so a contiguous part of it, and depends on the argument alone.
#[verifier::external_body]
fn trim_str(s: &str) -> (r: &str)
    ensures
        r@ == trimmed(s@),
        r@.len() <= s@.len() && exists|i: int| 0 <= i <= s@.len() - r@.len() && r@ == #[trigger] s@.subrange(i, i + r@.len()),
        r.spec_bytes().len() <= s.spec_bytes().len(),
{
    s.trim()
}

/// Longest name a player may register, in bytes once trimmed.
pub const MAX_NAME_LENGTH: usize = 20;

/// The name that a registration with the raw bytes `buf` asks for.
pub open spec fn requested_name(buf: Seq<u8>) -> Seq<char> {
    trimmed(decode_utf8(buf))
}

/// Accepts an already trimmed name that has from `min_len` to 20 bytes.
pub fn accept_trimmed_name(name: &str, min_len: usize) -> (r: Result<String, GameError>)
    ensures
        r is Ok <==> min_len <= name.spec_bytes().len() <= MAX_NAME_LENGTH,
        r matches Ok(s) ==> s@ == name@,
        r matches Err(e) ==> e == GameError::InvalidInstructionData,
{
    let len = name.as_bytes().len();
    if min_len <= len && len <= MAX_NAME_LENGTH {
        Ok(name.to_owned())
    } else {
        Err(GameError::InvalidInstructionData)
    }
}

/// Validates a raw name: UTF-8 that holds from `min_len` to 20 bytes once
/// trimmed. Returns the trimmed name.
pub fn get_validated_name(buf: &[u8], min_len: usize) -> (r: Result<String, GameError>)
    ensures
        r is Ok <==> valid_utf8(buf@) && min_len <= encode_utf8(requested_name(buf@)).len()
            <= MAX_NAME_LENGTH,
        r matches Ok(s) ==> s@ == requested_name(buf@),
        r matches Err(e) ==> e == GameError::InvalidInstructionData,
{
    broadcast use vstd::utf8::group_utf8_lib;
    if let Some(text) = utf8_str(buf) {
        proof {
            vstd::utf8::encode_utf8_decode_utf8(text@);
        }
        let name = trim_str(text);
        return accept_trimmed_name(name, min_len);
    }
    Err(GameError::InvalidInstructionData)
}

} // verus!
