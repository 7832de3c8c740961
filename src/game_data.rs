use vstd::prelude::*;

use crate::error::GameError;
use crate::utils::zero_fill;

verus! {

/// Bytes of a game record on the ledger.
pub const GAME_ACC_SIZE: u64 = 75;

/// An active or resolved game between two players.
#[derive(Debug, Clone, Copy, PartialEq, Eq)]
pub struct GameData {
    /// Address of the record of the player who moves first.
    pub player1: [u8; 32],
    /// Address of the record of the player who moves second.
    pub player2: [u8; 32],
    /// Moves played so far.
    pub no_of_moves: u8,
    /// 0 while in progress, 9 for a draw, otherwise the code of the completed line.
    pub game_status: u8,
    /// Cells played, in order; even positions belong to `player1`.
    pub moves: [u8; 9],
}

/// The layout of a game record: both players, move count, status, moves.
pub open spec fn game_layout(g: GameData) -> Seq<u8> {
    g.player1@ + g.player2@ + seq![g.no_of_moves, g.game_status] + g.moves@
}

/// Relies on borsh::to_vec: a tuple is written field by field, a byte array as
/// its bytes in order and a `u8` as one byte; writing into a `Vec` cannot fail.
#[verifier::external_body]
fn borsh_game(p1: &[u8; 32], p2: &[u8; 32], count: u8, status: u8, moves: &[u8; 9]) -> (r: Vec<
    u8,
>)
    ensures
        r@ == p1@ + p2@ + seq![count, status] + moves@,
{
    borsh::to_vec(&(*p1, *p2, count, status, *moves)).unwrap()
}

/// Relies on BorshDeserialize::try_from_slice for `([u8; 32], [u8; 32], u8, u8, [u8; 9])`:
/// the fields are read in order and every byte of the input must be used.
#[verifier::external_body]
fn unborsh_game(data: &[u8]) -> (r: Option<([u8; 32], [u8; 32], u8, u8, [u8; 9])>)
    ensures
        r is Some <==> data@.len() == 75,
        r matches Some(t) ==> {
            &&& t.0@ == data@.subrange(0, 32)
            &&& t.1@ == data@.subrange(32, 64)
            &&& t.2 == data@[64]
            &&& t.3 == data@[65]
            &&& t.4@ == data@.subrange(66, 75)
        },
{
    <([u8; 32], [u8; 32], u8, u8, [u8; 9]) as borsh::BorshDeserialize>::try_from_slice(data).ok()
}

/// A game record is determined by its layout, so reading back what was
/// written gives the same record.
pub proof fn lemma_game_layout_injective(a: GameData, b: GameData)
    requires
        game_layout(a) == game_layout(b),
    ensures
        a == b,
{
    let la = game_layout(a);
    let lb = game_layout(b);
    assert(a.player1@ == la.subrange(0, 32) && b.player1@ == lb.subrange(0, 32));
    assert(a.player2@ == la.subrange(32, 64) && b.player2@ == lb.subrange(32, 64));
    assert(a.moves@ == la.subrange(66, 75) && b.moves@ == lb.subrange(66, 75));
    assert(la[64] == lb[64] && la[65] == lb[65]);
    assert(a.player1 =~= b.player1);
    assert(a.player2 =~= b.player2);
    assert(a.moves =~= b.moves);
}

/// The game record whose layout is `data`, where there is one.
pub open spec fn game_of(data: Seq<u8>) -> GameData {
    choose|g: GameData| game_layout(g) == data
}

/// Reading the layout of a game record gives the record back.
pub proof fn lemma_game_of_layout(g: GameData)
    ensures
        game_of(game_layout(g)) == g,
{
    let d = game_layout(g);
    assert(game_layout(g) == d);
    lemma_game_layout_injective(game_of(d), g);
}

impl GameData {
    /// Reads a record from the bytes of a game account.
    pub fn parse(data: &[u8]) -> (r: Result<GameData, GameError>)
        ensures
            r is Ok <==> data@.len() == GAME_ACC_SIZE,
            r matches Ok(g) ==> game_layout(g) == data@,
            r matches Err(e) ==> e == GameError::InvalidRequest,
    {
        match unborsh_game(data) {
            Some(t) => {
                let g = GameData {
                    player1: t.0,
                    player2: t.1,
                    no_of_moves: t.2,
                    game_status: t.3,
                    moves: t.4,
                };
                assert(game_layout(g) == data@);
                Ok(g)
            },
            None => Err(GameError::InvalidRequest),
        }
    }

    /// The bytes that store this record in its account.
    pub fn write(&self) -> (r: Vec<u8>)
        ensures
            r@ == game_layout(*self),
            r@.len() == GAME_ACC_SIZE,
    {
        borsh_game(&self.player1, &self.player2, self.no_of_moves, self.game_status, &self.moves)
    }

    /// Zeroes the bytes of a game account.
    pub fn clear(data: &mut Vec<u8>)
        ensures
            final(data)@.len() == old(data)@.len(),
            forall|i: int| 0 <= i < final(data)@.len() ==> #[trigger] final(data)@[i] == 0,
    {
        zero_fill(data);
    }

    /// Records the first mover `id1` and the second mover `id2`.
    pub fn set_players(&mut self, id1: &[u8; 32], id2: &[u8; 32])
        ensures
            final(self).player1 == *id1,
            final(self).player2 == *id2,
            final(self).no_of_moves == old(self).no_of_moves,
            final(self).game_status == old(self).game_status,
            final(self).moves == old(self).moves,
    {
        self.player1 = *id1;
        self.player2 = *id2;
    }
}

} // verus!
