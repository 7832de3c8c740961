use vstd::prelude::*;

use crate::error::GameError;
use crate::utils::zero_fill;

verus! {

/// Bytes of a challenge record on the ledger.
pub const CHALLENGE_ACC_SIZE: u64 = 73;

/// A staked invitation from one player to another.
#[derive(Debug, Clone, Copy, PartialEq, Eq)]
pub struct ChallengeData {
    /// Address of the challenged player's record.
    pub invited_id: [u8; 32],
    /// Address of the challenging player's record.
    pub invitee_id: [u8; 32],
    /// Index into the table of stakes.
    pub stake_index: u8,
    /// Creation time.
    pub timestamp: u64,
}

/// The little-endian bytes of `x`.
pub open spec fn u64_le(x: u64) -> Seq<u8> {
    seq![
        (x & 0xff) as u8,
        ((x >> 8) & 0xff) as u8,
        ((x >> 16) & 0xff) as u8,
        ((x >> 24) & 0xff) as u8,
        ((x >> 32) & 0xff) as u8,
        ((x >> 40) & 0xff) as u8,
        ((x >> 48) & 0xff) as u8,
        ((x >> 56) & 0xff) as u8,
    ]
}

/// The layout of a challenge record: both players, stake index, timestamp.
pub open spec fn challenge_layout(c: ChallengeData) -> Seq<u8> {
    c.invited_id@ + c.invitee_id@ + seq![c.stake_index] + u64_le(c.timestamp)
}

/// Relies on borsh::to_vec: a tuple is written field by field, a byte array as
/// its bytes in order, a `u8` as one byte and a `u64` as its little-endian
/// bytes; writing into a `Vec` cannot fail.
#[verifier::external_body]
fn borsh_challenge(invited: &[u8; 32], invitee: &[u8; 32], stake: u8, time: u64) -> (r: Vec<u8>)
    ensures
        r@ == invited@ + invitee@ + seq![stake] + u64_le(time),
{
    borsh::to_vec(&(*invited, *invitee, stake, time)).unwrap()
}

/// Relies on BorshDeserialize::try_from_slice for `([u8; 32], [u8; 32], u8, u64)`:
/// the fields are read in order, the `u64` from little-endian bytes, and every
/// byte of the input must be used.
#[verifier::external_body]
fn unborsh_challenge(data: &[u8]) -> (r: Option<([u8; 32], [u8; 32], u8, u64)>)
    ensures
        r is Some <==> data@.len() == 73,
        r matches Some(t) ==> {
            &&& t.0@ == data@.subrange(0, 32)
            &&& t.1@ == data@.subrange(32, 64)
            &&& t.2 == data@[64]
            &&& u64_le(t.3) == data@.subrange(65, 73)
        },
{
    <([u8; 32], [u8; 32], u8, u64) as borsh::BorshDeserialize>::try_from_slice(data).ok()
}

/// Two integers with the same little-endian bytes are equal.
pub proof fn lemma_u64_le_injective(x: u64, y: u64)
    requires
        u64_le(x) == u64_le(y),
    ensures
        x == y,
{
    let a = u64_le(x);
    let b = u64_le(y);
    assert(x & 0xff < 256 && (x >> 8) & 0xff < 256 && (x >> 16) & 0xff < 256 && (x >> 24) & 0xff
        < 256 && (x >> 32) & 0xff < 256 && (x >> 40) & 0xff < 256 && (x >> 48) & 0xff < 256 && (x
        >> 56) & 0xff < 256) by (bit_vector);
    assert(y & 0xff < 256 && (y >> 8) & 0xff < 256 && (y >> 16) & 0xff < 256 && (y >> 24) & 0xff
        < 256 && (y >> 32) & 0xff < 256 && (y >> 40) & 0xff < 256 && (y >> 48) & 0xff < 256 && (y
        >> 56) & 0xff < 256) by (bit_vector);
    assert(a[0] == b[0] && a[1] == b[1] && a[2] == b[2] && a[3] == b[3]);
    assert(a[4] == b[4] && a[5] == b[5] && a[6] == b[6] && a[7] == b[7]);
    assert(x == y) by (bit_vector)
        requires
            x & 0xff == y & 0xff,
            (x >> 8) & 0xff == (y >> 8) & 0xff,
            (x >> 16) & 0xff == (y >> 16) & 0xff,
            (x >> 24) & 0xff == (y >> 24) & 0xff,
            (x >> 32) & 0xff == (y >> 32) & 0xff,
            (x >> 40) & 0xff == (y >> 40) & 0xff,
            (x >> 48) & 0xff == (y >> 48) & 0xff,
            (x >> 56) & 0xff == (y >> 56) & 0xff,
    ;
}

/// A challenge record is determined by its layout, so reading back what was
/// written gives the same record.
pub proof fn lemma_challenge_layout_injective(a: ChallengeData, b: ChallengeData)
    requires
        challenge_layout(a) == challenge_layout(b),
    ensures
        a == b,
{
    let la = challenge_layout(a);
    let lb = challenge_layout(b);
    assert(a.invited_id@ == la.subrange(0, 32) && b.invited_id@ == lb.subrange(0, 32));
    assert(a.invitee_id@ == la.subrange(32, 64) && b.invitee_id@ == lb.subrange(32, 64));
    assert(u64_le(a.timestamp) == la.subrange(65, 73) && u64_le(b.timestamp) == lb.subrange(65, 73));
    assert(la[64] == lb[64]);
    lemma_u64_le_injective(a.timestamp, b.timestamp);
    assert(a.invited_id =~= b.invited_id);
    assert(a.invitee_id =~= b.invitee_id);
}

/// The challenge record whose layout is `data`, where there is one.
pub open spec fn challenge_of(data: Seq<u8>) -> ChallengeData {
    choose|c: ChallengeData| challenge_layout(c) == data
}

/// Reading the layout of a challenge record gives the record back.
pub proof fn lemma_challenge_of_layout(c: ChallengeData)
    ensures
        challenge_of(challenge_layout(c)) == c,
{
    let d = challenge_layout(c);
    assert(challenge_layout(c) == d);
    lemma_challenge_layout_injective(challenge_of(d), c);
}

impl ChallengeData {
    /// Reads a record from the bytes of a challenge account.
    pub fn parse(data: &[u8]) -> (r: Result<ChallengeData, GameError>)
        ensures
            r is Ok <==> data@.len() == CHALLENGE_ACC_SIZE,
            r matches Ok(c) ==> challenge_layout(c) == data@,
            r matches Err(e) ==> e == GameError::InvalidRequest,
    {
        match unborsh_challenge(data) {
            Some(t) => {
                let c = ChallengeData {
                    invited_id: t.0,
                    invitee_id: t.1,
                    stake_index: t.2,
                    timestamp: t.3,
                };
                assert(challenge_layout(c) == data@);
                Ok(c)
            },
            None => Err(GameError::InvalidRequest),
        }
    }

    /// The bytes that store this record in its account.
    pub fn write(&self) -> (r: Vec<u8>)
        ensures
            r@ == challenge_layout(*self),
            r@.len() == CHALLENGE_ACC_SIZE,
    {
        borsh_challenge(&self.invited_id, &self.invitee_id, self.stake_index, self.timestamp)
    }

    /// Zeroes the bytes of a challenge account.
    pub fn clear(data: &mut Vec<u8>)
        ensures
            final(data)@.len() == old(data)@.len(),
            forall|i: int| 0 <= i < final(data)@.len() ==> #[trigger] final(data)@[i] == 0,
    {
        zero_fill(data);
    }

    /// Records the challenged player (`invited`) and the challenger (`invitee`).
    pub fn set_players(&mut self, invited: &[u8; 32], invitee: &[u8; 32])
        ensures
            final(self).invited_id == *invited,
            final(self).invitee_id == *invitee,
            final(self).stake_index == old(self).stake_index,
            final(self).timestamp == old(self).timestamp,
    {
        self.invited_id = *invited;
        self.invitee_id = *invitee;
    }
}

} // verus!
