use vstd::prelude::*;

use crate::{Error, MAGIC_WORD, NONCE_SIZE};

verus! {

/// Little-endian bytes of a 32-bit word.
pub open spec fn le_bytes(x: u32) -> Seq<u8> {
    seq![x as u8, (x >> 8u32) as u8, (x >> 16u32) as u8, (x >> 24u32) as u8]
}

/// The 32-bit word stored little-endian in four bytes.
pub open spec fn le_word(b0: u8, b1: u8, b2: u8, b3: u8) -> u32 {
    (b0 as u32) | ((b1 as u32) << 8u32) | ((b2 as u32) << 16u32) | ((b3 as u32) << 24u32)
}

/// The twelve bytes of a nonce: message count, tick and magic, each little-endian.
pub open spec fn nonce_bytes(msg_count: u32, tick: u32) -> Seq<u8> {
    le_bytes(msg_count) + le_bytes(tick) + le_bytes(MAGIC_WORD)
}

/// Whether `b` is a well-formed nonce: twelve bytes ending in the magic word.
pub open spec fn nonce_well_formed(b: Seq<u8>) -> bool {
    b.len() == NONCE_SIZE && b.subrange(8, 12) == le_bytes(MAGIC_WORD)
}

/// Message count stored in a well-formed nonce.
pub open spec fn nonce_count(b: Seq<u8>) -> u32 {
    le_word(b[0], b[1], b[2], b[3])
}

/// Tick stored in a well-formed nonce.
pub open spec fn nonce_tick(b: Seq<u8>) -> u32 {
    le_word(b[4], b[5], b[6], b[7])
}

pub proof fn lemma_le_word_of_bytes(x: u32)
    ensures
        le_word(x as u8, (x >> 8u32) as u8, (x >> 16u32) as u8, (x >> 24u32) as u8) == x,
{
    assert(((x as u8) as u32) | ((((x >> 8u32) as u8) as u32) << 8u32) | ((((x >> 16u32) as u8)
        as u32) << 16u32) | ((((x >> 24u32) as u8) as u32) << 24u32) == x) by (bit_vector);
}

/// Nonce carried by every frame: the sender's tick and message count.
pub struct FleetNonce {
    pub tick: u32,
    pub msg_count: u32,
}

impl FleetNonce {
    /// Serialises as `msg_count || tick || MAGIC_WORD`, all little-endian.
    pub fn to_bytes(&self) -> (r: [u8; NONCE_SIZE])
        ensures
            r@ == nonce_bytes(self.msg_count, self.tick),
    {
        let c = self.msg_count;
        let t = self.tick;
        let m = MAGIC_WORD;
        let r = [
            c as u8,
            (c >> 8u32) as u8,
            (c >> 16u32) as u8,
            (c >> 24u32) as u8,
            t as u8,
            (t >> 8u32) as u8,
            (t >> 16u32) as u8,
            (t >> 24u32) as u8,
            m as u8,
            (m >> 8u32) as u8,
            (m >> 16u32) as u8,
            (m >> 24u32) as u8,
        ];
        assert(r@ =~= nonce_bytes(self.msg_count, self.tick));
        r
    }

    /// Parses a nonce; anything but twelve bytes ending in the magic word is `BadNonce`.
    pub fn try_from_bytes(buf: &[u8]) -> (r: Result<FleetNonce, Error>)
        ensures
            nonce_well_formed(buf@) <==> r.is_ok(),
            r.is_err() ==> r == Err::<FleetNonce, Error>(Error::BadNonce),
            r matches Ok(n) ==> n.msg_count == nonce_count(buf@) && n.tick == nonce_tick(buf@),
    {
        if buf.len() != NONCE_SIZE {
            return Err(Error::BadNonce);
        }
        let m = MAGIC_WORD;
        let magic_ok = buf[8] == m as u8 && buf[9] == (m >> 8u32) as u8 && buf[10] == (m
            >> 16u32) as u8 && buf[11] == (m >> 24u32) as u8;
        let ghost tail = buf@.subrange(8, 12);
        assert(tail[0] == buf@[8] && tail[1] == buf@[9] && tail[2] == buf@[10] && tail[3]
            == buf@[11]);
        if !magic_ok {
            assert(tail != le_bytes(MAGIC_WORD));
            return Err(Error::BadNonce);
        }
        assert(tail =~= le_bytes(MAGIC_WORD));
        let msg_count = (buf[0] as u32) | ((buf[1] as u32) << 8u32) | ((buf[2] as u32) << 16u32)
            | ((buf[3] as u32) << 24u32);
        let tick = (buf[4] as u32) | ((buf[5] as u32) << 8u32) | ((buf[6] as u32) << 16u32)
            | ((buf[7] as u32) << 24u32);
        Ok(FleetNonce { tick, msg_count })
    }
}

/// A serialised nonce parses back to the tick and count it was made from.
pub proof fn lemma_nonce_round_trip(msg_count: u32, tick: u32)
    ensures
        nonce_well_formed(nonce_bytes(msg_count, tick)),
        nonce_count(nonce_bytes(msg_count, tick)) == msg_count,
        nonce_tick(nonce_bytes(msg_count, tick)) == tick,
{
    let b = nonce_bytes(msg_count, tick);
    assert(b.subrange(8, 12) =~= le_bytes(MAGIC_WORD));
    lemma_le_word_of_bytes(msg_count);
    lemma_le_word_of_bytes(tick);
}

} // verus!
