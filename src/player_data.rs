use vstd::prelude::*;

use crate::error::GameError;
use crate::utils::zero_fill;

verus! {

/// Bytes of a player record on the ledger.
pub const PLAYER_ACC_SIZE: u64 = 53;

/// The persistent record of one player.
#[derive(Debug, Clone, Copy, PartialEq, Eq)]
pub struct PlayerData {
    /// Display name, padded with spaces.
    pub name: [u8; 20],
    /// Challenges that target this player and wait for an answer.
    pub invitation_count: u8,
    /// Address of the game being played, all zero when none.
    pub current_game: [u8; 32],
}

/// `n` space characters.
pub open spec fn spaces(n: int) -> Seq<u8> {
    Seq::new(n as nat, |i: int| 32u8)
}

/// The 32-byte zero address, which stands for "no game".
pub open spec fn zero_key() -> Seq<u8> {
    Seq::new(32, |i: int| 0u8)
}

/// The layout of a player record: name, invitation count, current game.
pub open spec fn player_layout(p: PlayerData) -> Seq<u8> {
    p.name@ + seq![p.invitation_count] + p.current_game@
}

/// Relies on borsh::to_vec: a tuple is written field by field, a byte array as
/// its bytes in order and a `u8` as one byte; writing into a `Vec` cannot fail.
#[verifier::external_body]
fn borsh_player(name: &[u8; 20], count: u8, game: &[u8; 32]) -> (r: Vec<u8>)
    ensures
        r@ == name@ + seq![count] + game@,
{
    borsh::to_vec(&(*name, count, *game)).unwrap()
}

/// Relies on BorshDeserialize::try_from_slice for `([u8; 20], u8, [u8; 32])`:
/// the fields are read in order and every byte of the input must be used.
#[verifier::external_body]
fn unborsh_player(data: &[u8]) -> (r: Option<([u8; 20], u8, [u8; 32])>)
    ensures
        r is Some <==> data@.len() == 53,
        r matches Some(t) ==> t.0@ == data@.subrange(0, 20) && t.1 == data@[20] && t.2@
            == data@.subrange(21, 53),
{
    <([u8; 20], u8, [u8; 32]) as borsh::BorshDeserialize>::try_from_slice(data).ok()
}

/// A player record is determined by its layout, so reading back what was
/// written gives the same record.
pub proof fn lemma_player_layout_injective(a: PlayerData, b: PlayerData)
    requires
        player_layout(a) == player_layout(b),
    ensures
        a == b,
{
    let la = player_layout(a);
    let lb = player_layout(b);
    assert(a.name@ == la.subrange(0, 20));
    assert(b.name@ == lb.subrange(0, 20));
    assert(a.current_game@ == la.subrange(21, 53));
    assert(b.current_game@ == lb.subrange(21, 53));
    assert(la[20] == lb[20]);
    assert(a.name@ == b.name@);
    assert(a.current_game@ == b.current_game@);
    assert(a.name =~= b.name);
    assert(a.current_game =~= b.current_game);
}

/// The player record whose layout is `data`, where there is one.
pub open spec fn player_of(data: Seq<u8>) -> PlayerData {
    choose|p: PlayerData| player_layout(p) == data
}

/// Reading the layout of a player record gives the record back.
pub proof fn lemma_player_of_layout(p: PlayerData)
    ensures
        player_of(player_layout(p)) == p,
{
    let d = player_layout(p);
    assert(player_layout(p) == d);
    lemma_player_layout_injective(player_of(d), p);
}

impl PlayerData {
    /// Reads a record from the bytes of a player account.
    pub fn parse(data: &[u8]) -> (r: Result<PlayerData, GameError>)
        ensures
            r is Ok <==> data@.len() == PLAYER_ACC_SIZE,
            r matches Ok(p) ==> player_layout(p) == data@,
            r matches Err(e) ==> e == GameError::InvalidRequest,
    {
        match unborsh_player(data) {
            Some(t) => {
                let p = PlayerData { name: t.0, invitation_count: t.1, current_game: t.2 };
                assert(player_layout(p) == data@);
                Ok(p)
            },
            None => Err(GameError::InvalidRequest),
        }
    }

    /// The bytes that store this record in its account.
    pub fn write(&self) -> (r: Vec<u8>)
        ensures
            r@ == player_layout(*self),
            r@.len() == PLAYER_ACC_SIZE,
    {
        borsh_player(&self.name, self.invitation_count, &self.current_game)
    }

    /// Sets the name to `data`, padded with spaces to 20 bytes.
    pub fn set_name(&mut self, data: &[u8])
        requires
            data@.len() <= 20,
        ensures
            final(self).name@ == data@ + spaces(20 - data@.len()),
            final(self).invitation_count == old(self).invitation_count,
            final(self).current_game == old(self).current_game,
    {
        let mut i: usize = 0;
        while i < 20
            invariant
                data@.len() <= 20,
                0 <= i <= 20,
                self.invitation_count == old(self).invitation_count,
                self.current_game == old(self).current_game,
                forall|j: int|
                    0 <= j < i ==> #[trigger] self.name@[j] == (data@ + spaces(
                        20 - data@.len(),
                    ))[j],
            decreases 20 - i,
        {
            if i < data.len() {
                self.name[i] = data[i];
            } else {
                self.name[i] = 32;
            }
            i = i + 1;
        }
        assert(self.name@ == data@ + spaces(20 - data@.len()));
    }

    /// Counts one more challenge addressed to this player.
    pub fn inc_invitation(&mut self) -> (r: Result<(), GameError>)
        ensures
            r is Ok <==> old(self).invitation_count < 255,
            r is Ok ==> final(self).invitation_count == old(self).invitation_count + 1,
            r is Err ==> r == Err::<(), GameError>(GameError::LogicError) && *final(self) == *old(
                self,
            ),
            final(self).name == old(self).name,
            final(self).current_game == old(self).current_game,
    {
        if self.invitation_count == 255 {
            return Err(GameError::LogicError);
        }
        self.invitation_count = self.invitation_count + 1;
        Ok(())
    }

    /// Counts one challenge fewer; the count never goes below zero.
    pub fn dec_invitation(&mut self) -> (r: Result<(), GameError>)
        ensures
            r is Ok <==> old(self).invitation_count > 0,
            r is Ok ==> final(self).invitation_count == old(self).invitation_count - 1,
            r is Err ==> r == Err::<(), GameError>(GameError::LogicError) && *final(self) == *old(
                self,
            ),
            final(self).name == old(self).name,
            final(self).current_game == old(self).current_game,
    {
        if self.invitation_count == 0 {
            return Err(GameError::LogicError);
        }
        self.invitation_count = self.invitation_count - 1;
        Ok(())
    }

    /// Records the game this player is in.
    pub fn set_current_game(&mut self, game: &[u8; 32])
        ensures
            final(self).current_game == *game,
            final(self).name == old(self).name,
            final(self).invitation_count == old(self).invitation_count,
    {
        self.current_game = *game;
    }

    /// Zeroes the bytes of a player account.
    pub fn clear(data: &mut Vec<u8>)
        ensures
            final(data)@.len() == old(data)@.len(),
            forall|i: int| 0 <= i < final(data)@.len() ==> #[trigger] final(data)@[i] == 0,
    {
        zero_fill(data);
    }

    /// Marks this player as in no game.
    pub fn clear_current_game(&mut self)
        ensures
            final(self).current_game@ == zero_key(),
            final(self).name == old(self).name,
            final(self).invitation_count == old(self).invitation_count,
    {
        self.current_game = [0u8; 32];
        assert(self.current_game@ == zero_key());
    }
}

} // verus!
