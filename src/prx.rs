use vstd::prelude::*;

use crate::crypt::chacha8_sealed;
use crate::frame::{
    frame_body, frame_nonce, frame_shape_error, open_frame, open_outcome, parse_frame,
    result_bytes, seal_frame, seal_outcome, MessageMetadata, RadioPacket, RxMessage, MAX_PIPE,
};
use crate::nonce::{nonce_count, nonce_tick, FleetNonce};
use crate::{Error, MIN_CRYPT_SIZE};

verus! {

/// The base-station side of a link. It keeps no counter of its own: every
/// reply carries the nonce of the last frame it received. It does not reject
/// replays; the tag alone gates what it accepts.
pub struct FleetRadioPrx {
    key: [u8; 32],
    max_payload: usize,
    last_rx_tick: u32,
    last_rx_count: u32,
}

impl FleetRadioPrx {
    pub closed spec fn spec_key(&self) -> Seq<u8> {
        self.key@
    }

    pub closed spec fn spec_max_payload(&self) -> nat {
        self.max_payload as nat
    }

    pub closed spec fn spec_last_rx_tick(&self) -> u32 {
        self.last_rx_tick
    }

    pub closed spec fn spec_last_rx_count(&self) -> u32 {
        self.last_rx_count
    }

    /// What receiving payload `p` gives.
    pub open spec fn spec_receive_outcome(&self, p: Seq<u8>) -> Result<Seq<u8>, Error> {
        if frame_shape_error(p) is Some {
            Err(frame_shape_error(p)->Some_0)
        } else {
            open_outcome(self.spec_key(), p)
        }
    }

    /// A receiver for `key`; frames are built in buffers of `max_payload` bytes.
    pub fn new(key: &[u8; 32], max_payload: usize) -> (r: Self)
        ensures
            r.spec_key() == key@,
            r.spec_max_payload() == max_payload,
            r.spec_last_rx_tick() == 0,
            r.spec_last_rx_count() == 0,
    {
        FleetRadioPrx { key: *key, max_payload, last_rx_tick: 0, last_rx_count: 0 }
    }

    /// Encrypts `msg` for `pipe` under the nonce of the last received frame.
    pub fn send(&mut self, msg: &[u8], pipe: u8) -> (r: Result<RadioPacket, Error>)
        ensures
            *final(self) == *old(self),
            pipe > MAX_PIPE ==> r == Err::<RadioPacket, Error>(Error::HeaderError),
            pipe <= MAX_PIPE ==> match seal_outcome(
                old(self).spec_key(),
                old(self).spec_last_rx_count(),
                old(self).spec_last_rx_tick(),
                msg@,
                old(self).spec_max_payload(),
            ) {
                Ok(f) => (r matches Ok(p) && p.pipe == pipe && p.payload@ == f && p.payload@.len() == msg@.len()
                    + MIN_CRYPT_SIZE),
                Err(e) => r == Err::<RadioPacket, Error>(e),
            },
    {
        if pipe > MAX_PIPE {
            return Err(Error::HeaderError);
        }
        let nonce = FleetNonce { tick: self.last_rx_tick, msg_count: self.last_rx_count };
        let payload = seal_frame(&self.key, &nonce, msg, self.max_payload)?;
        Ok(RadioPacket { pipe, payload })
    }

    /// Authenticates one received packet and gives back its plaintext. An
    /// empty payload (a bare acknowledgement) is `NoData`. The nonce of every
    /// well-shaped frame is kept for the next reply, before decryption.
    pub fn receive_with(&mut self, packet: &RadioPacket) -> (r: Result<Vec<u8>, Error>)
        ensures
            final(self).spec_key() == old(self).spec_key(),
            final(self).spec_max_payload() == old(self).spec_max_payload(),
            result_bytes(r) == old(self).spec_receive_outcome(packet.payload@),
            frame_shape_error(packet.payload@) is None ==> ({
                let n = frame_nonce(packet.payload@);
                &&& final(self).spec_last_rx_tick() == nonce_tick(n)
                &&& final(self).spec_last_rx_count() == nonce_count(n)
            }),
            frame_shape_error(packet.payload@) is Some ==> *final(self) == *old(self),
            forall|m: Seq<u8>|
                frame_shape_error(packet.payload@) is None && frame_body(packet.payload@)
                    == #[trigger] chacha8_sealed(
                    old(self).spec_key(),
                    frame_nonce(packet.payload@),
                    m,
                ) ==> result_bytes(r) == Ok::<Seq<u8>, Error>(m),
    {
        let nonce = parse_frame(packet.payload.as_slice())?;
        self.last_rx_tick = nonce.tick;
        self.last_rx_count = nonce.msg_count;
        open_frame(&self.key, packet.payload.as_slice())
    }

    /// Receives one packet: `None` for a bare acknowledgement, else the
    /// authenticated message and the pipe it came on.
    pub fn receive(&mut self, packet: &RadioPacket) -> (r: Result<Option<RxMessage>, Error>)
        ensures
            final(self).spec_key() == old(self).spec_key(),
            final(self).spec_max_payload() == old(self).spec_max_payload(),
            packet.payload@.len() == 0 ==> (r matches Ok(None) && *final(self) == *old(self)),
            packet.payload@.len() > 0 ==> match old(self).spec_receive_outcome(packet.payload@) {
                Ok(m) => (r matches Ok(Some(x)) && x.msg@ == m && x.meta.pipe == packet.pipe),
                Err(e) => r == Err::<Option<RxMessage>, Error>(e),
            },
            frame_shape_error(packet.payload@) is None ==> ({
                let n = frame_nonce(packet.payload@);
                &&& final(self).spec_last_rx_tick() == nonce_tick(n)
                &&& final(self).spec_last_rx_count() == nonce_count(n)
            }),
            frame_shape_error(packet.payload@) is Some ==> *final(self) == *old(self),
            forall|m: Seq<u8>|
                frame_shape_error(packet.payload@) is None && frame_body(packet.payload@)
                    == #[trigger] chacha8_sealed(
                    old(self).spec_key(),
                    frame_nonce(packet.payload@),
                    m,
                ) ==> (r matches Ok(Some(x)) && x.msg@ == m && x.meta.pipe == packet.pipe),
    {
        match self.receive_with(packet) {
            Ok(msg) => Ok(Some(RxMessage { msg, meta: MessageMetadata { pipe: packet.pipe } })),
            Err(Error::NoData) => Ok(None),
            Err(e) => Err(e),
        }
    }
}

} // verus!
