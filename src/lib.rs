//! Authenticated radio framing for a small fleet of embedded nodes, together
//! with the relay bank, the UART idle-flush receiver and the topic matcher
//! that sit around it.

use vstd::prelude::*;

pub mod arbiter;
pub mod crypt;
pub mod frame;
pub mod icd;
pub mod keys;
pub mod lilbuf;
pub mod nonce;
pub mod plant;
pub mod prx;
pub mod ptx;
pub mod relays;
pub mod rest;
pub mod ring;
pub mod timer;
pub mod topic;
pub mod uarte;

verus! {

/// Length of the nonce carried in clear at the end of every frame.
pub const NONCE_SIZE: usize = 12;

/// Length of the authentication tag that follows the ciphertext.
pub const CRYPT_SIZE: usize = 16;

/// Bytes that every frame carries besides its payload.
pub const MIN_CRYPT_SIZE: usize = NONCE_SIZE + CRYPT_SIZE;

/// Protocol magic and version (major 7, minor 0, trivial 0, reserved 1),
/// stored little-endian in the last four bytes of every nonce.
pub const MAGIC_WORD: u32 = 0xF1337001;

/// Errors of the secure radio layer.
#[derive(Debug, Clone, Copy, PartialEq, Eq, Structural)]
pub enum Error {
    /// The frame cannot even hold the tag, the nonce and one payload byte.
    PacketTooSmol,
    /// The trailing nonce is malformed or carries the wrong magic.
    BadNonce,
    /// The nonce is well formed but stale, replayed or out of order.
    InvalidNonce,
    /// No packet is waiting.
    NoData,
    /// The outbound queue has no room for another packet.
    QueueFull,
    /// The pipe number is not a valid ESB pipe.
    HeaderError,
    /// Authentication or encryption failed.
    Crypt,
    /// The frame does not fit the packet buffer.
    BufferTooSmol,
}

} // verus!
