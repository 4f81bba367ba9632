use vstd::prelude::*;

use crate::crypt::{aead_open, aead_seal, chacha8_opened, chacha8_sealed};
use crate::lilbuf::{LilBuf, MAX_FRAME};
use crate::nonce::{
    le_bytes, lemma_nonce_round_trip, nonce_bytes, nonce_count, nonce_tick, nonce_well_formed,
    FleetNonce,
};
use crate::{Error, CRYPT_SIZE, MAGIC_WORD, MIN_CRYPT_SIZE, NONCE_SIZE};

verus! {

/// Highest ESB pipe number.
pub const MAX_PIPE: u8 = 7;

/// One ESB packet: the pipe it travels on and its payload.
pub struct RadioPacket {
    pub pipe: u8,
    pub payload: Vec<u8>,
}

/// Where a received message came from.
#[derive(Debug, Clone, Copy, PartialEq, Eq, Structural)]
pub struct MessageMetadata {
    pub pipe: u8,
}

/// A received, authenticated plaintext and its metadata.
pub struct RxMessage {
    pub msg: Vec<u8>,
    pub meta: MessageMetadata,
}

/// How many frame bytes fit a packet buffer of `max_payload` bytes.
pub open spec fn frame_cap(max_payload: nat) -> nat {
    if max_payload < MAX_FRAME {
        max_payload
    } else {
        MAX_FRAME as nat
    }
}

/// The frame for `msg`: ciphertext and tag, then the nonce in clear.
pub open spec fn sealed_frame(key: Seq<u8>, msg_count: u32, tick: u32, msg: Seq<u8>) -> Seq<u8> {
    chacha8_sealed(key, nonce_bytes(msg_count, tick), msg) + nonce_bytes(msg_count, tick)
}

/// What sealing `msg` into a buffer of `max_payload` bytes gives.
pub open spec fn seal_outcome(
    key: Seq<u8>,
    msg_count: u32,
    tick: u32,
    msg: Seq<u8>,
    max_payload: nat,
) -> Result<Seq<u8>, Error> {
    if msg.len() > frame_cap(max_payload) {
        Err(Error::BufferTooSmol)
    } else if msg.len() + CRYPT_SIZE > frame_cap(max_payload) {
        Err(Error::Crypt)
    } else if msg.len() + MIN_CRYPT_SIZE > frame_cap(max_payload) {
        Err(Error::BufferTooSmol)
    } else {
        Ok(sealed_frame(key, msg_count, tick, msg))
    }
}

/// Ciphertext and tag of a frame.
pub open spec fn frame_body(p: Seq<u8>) -> Seq<u8> {
    p.subrange(0, p.len() - NONCE_SIZE)
}

/// The clear nonce at the end of a frame.
pub open spec fn frame_nonce(p: Seq<u8>) -> Seq<u8> {
    p.subrange(p.len() - NONCE_SIZE, p.len() as int)
}

/// Why a received payload is refused before its nonce is looked at, if it is.
pub open spec fn frame_shape_error(p: Seq<u8>) -> Option<Error> {
    if p.len() == 0 {
        Some(Error::NoData)
    } else if p.len() <= MIN_CRYPT_SIZE {
        Some(Error::PacketTooSmol)
    } else if !nonce_well_formed(frame_nonce(p)) {
        Some(Error::BadNonce)
    } else {
        None
    }
}

/// What decrypting a well-shaped frame gives.
pub open spec fn open_outcome(key: Seq<u8>, p: Seq<u8>) -> Result<Seq<u8>, Error> {
    match chacha8_opened(key, frame_nonce(p), frame_body(p)) {
        Some(m) => Ok(m),
        None => Err(Error::Crypt),
    }
}

/// The bytes a result carries, if it is `Ok`.
pub open spec fn result_bytes(r: Result<Vec<u8>, Error>) -> Result<Seq<u8>, Error> {
    match r {
        Ok(v) => Ok(v@),
        Err(e) => Err(e),
    }
}

/// Encrypts `msg` under `nonce` and appends the nonce, in a buffer of
/// `max_payload` bytes (at most 255 of them usable).
pub fn seal_frame(key: &[u8; 32], nonce: &FleetNonce, msg: &[u8], max_payload: usize) -> (r:
    Result<Vec<u8>, Error>)
    ensures
        result_bytes(r) == seal_outcome(
            key@,
            nonce.msg_count,
            nonce.tick,
            msg@,
            max_payload as nat,
        ),
        r matches Ok(v) ==> v@.len() == msg@.len() + MIN_CRYPT_SIZE,
{
    let mut buf = LilBuf::new(max_payload);
    if buf.extend_from_slice(msg).is_err() {
        return Err(Error::BufferTooSmol);
    }
    let nonce_arr = nonce.to_bytes();
    let sealed = aead_seal(key, &nonce_arr, msg);
    let sealed = match sealed {
        Some(s) => s,
        None => {
            return Err(Error::Crypt);
        },
    };
    buf.truncate(0);
    if buf.extend_from_slice(sealed.as_slice()).is_err() {
        return Err(Error::Crypt);
    }
    if buf.extend_from_slice(&nonce_arr).is_err() {
        return Err(Error::BufferTooSmol);
    }
    let out = vstd::slice::slice_to_vec(buf.as_ref());
    Ok(out)
}

/// Copies the trailing nonce of a frame into an array.
fn trailing_nonce(p: &[u8]) -> (r: [u8; NONCE_SIZE])
    requires
        p@.len() >= NONCE_SIZE,
    ensures
        r@ == frame_nonce(p@),
{
    let n = p.len() - NONCE_SIZE;
    let r = [
        p[n],
        p[n + 1],
        p[n + 2],
        p[n + 3],
        p[n + 4],
        p[n + 5],
        p[n + 6],
        p[n + 7],
        p[n + 8],
        p[n + 9],
        p[n + 10],
        p[n + 11],
    ];
    assert(r@ =~= frame_nonce(p@));
    r
}

/// Checks the shape of a received payload and parses its nonce.
pub fn parse_frame(p: &[u8]) -> (r: Result<FleetNonce, Error>)
    ensures
        frame_shape_error(p@) matches Some(e) ==> r == Err::<FleetNonce, Error>(e),
        frame_shape_error(p@) is None ==> (r matches Ok(n) && n.msg_count == nonce_count(
            frame_nonce(p@),
        ) && n.tick == nonce_tick(frame_nonce(p@))),
{
    if p.len() == 0 {
        return Err(Error::NoData);
    }
    if p.len() <= MIN_CRYPT_SIZE {
        return Err(Error::PacketTooSmol);
    }
    let nonce_arr = trailing_nonce(p);
    FleetNonce::try_from_bytes(&nonce_arr)
}

/// Decrypts the body of a well-shaped frame.
pub fn open_frame(key: &[u8; 32], p: &[u8]) -> (r: Result<Vec<u8>, Error>)
    requires
        frame_shape_error(p@) is None,
    ensures
        result_bytes(r) == open_outcome(key@, p@),
        forall|m: Seq<u8>|
            frame_body(p@) == #[trigger] chacha8_sealed(key@, frame_nonce(p@), m) ==> result_bytes(r)
                == Ok::<Seq<u8>, Error>(m),
{
    let n = p.len() - NONCE_SIZE;
    let nonce_arr = trailing_nonce(p);
    let body = vstd::slice::slice_subrange(p, 0, n);
    assert(body@ == frame_body(p@));
    match aead_open(key, &nonce_arr, body) {
        Some(m) => Ok(m),
        None => Err(Error::Crypt),
    }
}

/// A sealed frame splits back into the sealed body and its nonce, and the
/// nonce parses back to the tick and count it was made from.
pub proof fn lemma_frame_round_trip(key: Seq<u8>, msg_count: u32, tick: u32, msg: Seq<u8>)
    ensures
        frame_body(sealed_frame(key, msg_count, tick, msg)) == chacha8_sealed(
            key,
            nonce_bytes(msg_count, tick),
            msg,
        ),
        frame_nonce(sealed_frame(key, msg_count, tick, msg)) == nonce_bytes(msg_count, tick),
        nonce_well_formed(frame_nonce(sealed_frame(key, msg_count, tick, msg))),
        nonce_count(frame_nonce(sealed_frame(key, msg_count, tick, msg))) == msg_count,
        nonce_tick(frame_nonce(sealed_frame(key, msg_count, tick, msg))) == tick,
{
    let c = chacha8_sealed(key, nonce_bytes(msg_count, tick), msg);
    let f = sealed_frame(key, msg_count, tick, msg);
    assert(frame_body(f) =~= c);
    assert(frame_nonce(f) =~= nonce_bytes(msg_count, tick));
    lemma_nonce_round_trip(msg_count, tick);
}

/// Changing any byte of the magic word of a sealed frame gets the frame
/// refused before decryption: as `BadNonce` when it is long enough to hold a
/// payload byte.
pub proof fn lemma_magic_tamper_rejected(key: Seq<u8>, msg_count: u32, tick: u32, msg: Seq<u8>, i: int, b: u8)
    requires
        0 <= i < 4,
        b != sealed_frame(key, msg_count, tick, msg)[sealed_frame(key, msg_count, tick, msg).len() - 4 + i],
    ensures
        frame_shape_error(sealed_frame(key, msg_count, tick, msg).update(
            sealed_frame(key, msg_count, tick, msg).len() - 4 + i,
            b,
        )) is Some,
        sealed_frame(key, msg_count, tick, msg).len() > MIN_CRYPT_SIZE ==> frame_shape_error(
            sealed_frame(key, msg_count, tick, msg).update(
                sealed_frame(key, msg_count, tick, msg).len() - 4 + i,
                b,
            ),
        ) == Some(Error::BadNonce),
{
    let f = sealed_frame(key, msg_count, tick, msg);
    let g = f.update(f.len() - 4 + i, b);
    lemma_frame_round_trip(key, msg_count, tick, msg);
    assert(frame_nonce(f).subrange(8, 12) == le_bytes(MAGIC_WORD));
    assert(frame_nonce(g)[8 + i] == b);
    assert(frame_nonce(f)[8 + i] == f[f.len() - 4 + i]);
    assert(frame_nonce(g).subrange(8, 12)[i] != le_bytes(MAGIC_WORD)[i]);
}

} // verus!
