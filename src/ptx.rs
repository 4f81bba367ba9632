use vstd::prelude::*;

use crate::crypt::chacha8_sealed;
use crate::frame::{
    frame_body, frame_nonce, frame_shape_error, open_frame, open_outcome, parse_frame,
    result_bytes, seal_frame, seal_outcome, MessageMetadata, RadioPacket, RxMessage, MAX_PIPE,
};
use crate::nonce::{nonce_count, nonce_tick, FleetNonce};
use crate::relays::TICKS_PER_SECOND;
use crate::{Error, MIN_CRYPT_SIZE};

verus! {

/// Quiet time, in ticks, after which a transmitter polls its receiver.
pub const POLL_PRX_INTERVAL: u32 = TICKS_PER_SECOND / 10;

/// Whether `x` lies between `lo` and `hi`; when `rolled`, the interval runs
/// from `lo` through the end of the `u32` range and on from zero to `hi`.
pub open spec fn wrap_window(x: u32, lo: u32, hi: u32, rolled: bool) -> bool {
    if rolled {
        x >= lo || x <= hi
    } else {
        lo <= x && x <= hi
    }
}

/// Whether a received tick is no older than the last accepted one and no
/// newer than `cur_tick`.
pub open spec fn tick_after_last(last_rx_tick: u32, cur_tick: u32, n_tick: u32) -> bool {
    wrap_window(n_tick, last_rx_tick, cur_tick, last_rx_tick > cur_tick)
}

/// Whether a received tick is at most `tick_window` ticks old.
pub open spec fn tick_in_window(cur_tick: u32, tick_window: u32, n_tick: u32) -> bool {
    let min_tick = cur_tick.wrapping_sub(tick_window);
    wrap_window(n_tick, min_tick, cur_tick, min_tick > cur_tick)
}

/// Whether a received count is newer than the last accepted count and no
/// newer than our own count, so that no frame is accepted twice. Whether
/// this window has rolled over is decided by comparing the last count with
/// the current tick (not with our own count); that widens the accepted
/// range in some corner cases, which the tag still gates.
pub open spec fn count_in_range(last_rx_count: u32, msg_count: u32, cur_tick: u32, n_count: u32) -> bool {
    wrap_window(n_count, last_rx_count, msg_count, last_rx_count > cur_tick) && n_count != last_rx_count
}

/// The acceptance policy of the transmitting side.
pub open spec fn nonce_acceptable(
    cur_tick: u32,
    tick_window: u32,
    last_rx_tick: u32,
    last_rx_count: u32,
    msg_count: u32,
    n_tick: u32,
    n_count: u32,
) -> bool {
    &&& tick_after_last(last_rx_tick, cur_tick, n_tick)
    &&& tick_in_window(cur_tick, tick_window, n_tick)
    &&& count_in_range(last_rx_count, msg_count, cur_tick, n_count)
}

/// The roaming side of a link: it numbers its own messages, stamps them with
/// its clock, and only accepts replies that are fresh and in order.
pub struct FleetRadioPtx {
    key: [u8; 32],
    max_payload: usize,
    tick_window: u32,
    tick_offset: u32,
    last_tx_tick: u32,
    last_rx_tick: u32,
    msg_count: u32,
    last_rx_count: u32,
}

impl FleetRadioPtx {
    pub closed spec fn spec_key(&self) -> Seq<u8> {
        self.key@
    }

    pub closed spec fn spec_max_payload(&self) -> nat {
        self.max_payload as nat
    }

    pub closed spec fn spec_tick_window(&self) -> u32 {
        self.tick_window
    }

    pub closed spec fn spec_tick_offset(&self) -> u32 {
        self.tick_offset
    }

    pub closed spec fn spec_last_tx_tick(&self) -> u32 {
        self.last_tx_tick
    }

    pub closed spec fn spec_last_rx_tick(&self) -> u32 {
        self.last_rx_tick
    }

    pub closed spec fn spec_msg_count(&self) -> u32 {
        self.msg_count
    }

    pub closed spec fn spec_last_rx_count(&self) -> u32 {
        self.last_rx_count
    }

    /// Our tick: the timer's tick shifted by the secret offset.
    pub open spec fn spec_current_tick(&self, now: u32) -> u32 {
        now.wrapping_add(self.spec_tick_offset())
    }

    /// Whether a nonce passes the acceptance policy at timer tick `now`.
    pub open spec fn spec_accepts(&self, now: u32, n_tick: u32, n_count: u32) -> bool {
        nonce_acceptable(
            self.spec_current_tick(now),
            self.spec_tick_window(),
            self.spec_last_rx_tick(),
            self.spec_last_rx_count(),
            self.spec_msg_count(),
            n_tick,
            n_count,
        )
    }

    /// Everything but the reception bookkeeping is unchanged.
    pub open spec fn same_config(&self, other: &Self) -> bool {
        &&& self.spec_key() == other.spec_key()
        &&& self.spec_max_payload() == other.spec_max_payload()
        &&& self.spec_tick_window() == other.spec_tick_window()
        &&& self.spec_tick_offset() == other.spec_tick_offset()
    }

    /// A transmitter for `key`. `msg_count` and `tick_offset` should be
    /// random; frames are built in buffers of `max_payload` bytes.
    pub fn new(key: &[u8; 32], max_payload: usize, tick_window: u32, msg_count: u32, tick_offset: u32) -> (r: Self)
        ensures
            r.spec_key() == key@,
            r.spec_max_payload() == max_payload,
            r.spec_tick_window() == tick_window,
            r.spec_tick_offset() == tick_offset,
            r.spec_msg_count() == msg_count,
            r.spec_last_rx_count() == msg_count,
            r.spec_last_rx_tick() == tick_offset,
            r.spec_last_tx_tick() == tick_offset,
    {
        FleetRadioPtx {
            key: *key,
            max_payload,
            tick_window,
            tick_offset,
            last_tx_tick: tick_offset,
            last_rx_tick: tick_offset,
            msg_count,
            last_rx_count: msg_count,
        }
    }

    /// Our tick at timer tick `now`.
    pub fn current_tick(&self, now: u32) -> (r: u32)
        ensures
            r == self.spec_current_tick(now),
    {
        now.wrapping_add(self.tick_offset)
    }

    /// Ticks since the last frame was sent.
    pub fn ticks_since_last_tx(&self, now: u32) -> (r: u32)
        ensures
            r == self.spec_current_tick(now).wrapping_sub(self.spec_last_tx_tick()),
    {
        self.current_tick(now).wrapping_sub(self.last_tx_tick)
    }

    /// Ticks since the last frame was accepted.
    pub fn ticks_since_last_rx(&self, now: u32) -> (r: u32)
        ensures
            r == self.spec_current_tick(now).wrapping_sub(self.spec_last_rx_tick()),
    {
        self.current_tick(now).wrapping_sub(self.last_rx_tick)
    }

    /// Numbers, stamps and encrypts `msg` for `pipe`. The count advances
    /// once the message is known to fit the buffer, even if the tag or the
    /// nonce then does not.
    pub fn send(&mut self, msg: &[u8], pipe: u8, now: u32) -> (r: Result<RadioPacket, Error>)
        ensures
            final(self).same_config(old(self)),
            final(self).spec_last_rx_tick() == old(self).spec_last_rx_tick(),
            final(self).spec_last_rx_count() == old(self).spec_last_rx_count(),
            pipe > MAX_PIPE ==> r is Err && r->Err_0 == Error::HeaderError && *final(self) == *old(
                self,
            ),
            pipe <= MAX_PIPE && msg@.len() > old(self).spec_max_payload() ==> r is Err && r->Err_0
                == Error::BufferTooSmol && *final(self) == *old(self),
            pipe <= MAX_PIPE && msg@.len() <= old(self).spec_max_payload() ==> ({
                let count = old(self).spec_msg_count().wrapping_add(1);
                let tick = old(self).spec_current_tick(now);
                let out = seal_outcome(
                    old(self).spec_key(),
                    count,
                    tick,
                    msg@,
                    old(self).spec_max_payload(),
                );
                &&& final(self).spec_msg_count() == count
                &&& out is Ok ==> final(self).spec_last_tx_tick() == tick
                &&& out is Err ==> final(self).spec_last_tx_tick() == old(self).spec_last_tx_tick()
                &&& out is Ok ==> (r matches Ok(p) && p.pipe == pipe && p.payload@ == out->Ok_0)
                &&& out is Ok ==> (r matches Ok(p) && p.payload@.len() == msg@.len() + MIN_CRYPT_SIZE)
                &&& out is Err ==> (r matches Err(e) && e == out->Err_0)
            }),
    {
        if pipe > MAX_PIPE {
            return Err(Error::HeaderError);
        }
        if msg.len() > self.max_payload {
            return Err(Error::BufferTooSmol);
        }
        self.msg_count = self.msg_count.wrapping_add(1);
        let tick = self.current_tick(now);
        let nonce = FleetNonce { tick, msg_count: self.msg_count };
        let framed = seal_frame(&self.key, &nonce, msg, self.max_payload);
        match framed {
            Ok(payload) => {
                self.last_tx_tick = tick;
                Ok(RadioPacket { pipe, payload })
            },
            Err(e) => Err(e),
        }
    }

    /// Whether `nonce` passes the acceptance policy at timer tick `now`.
    pub fn check_nonce(&self, nonce: &FleetNonce, now: u32) -> (r: bool)
        ensures
            r == self.spec_accepts(now, nonce.tick, nonce.msg_count),
    {
        let cur_tick = self.current_tick(now);
        let min_tick = cur_tick.wrapping_sub(self.tick_window);

        let last_tick_good = if self.last_rx_tick > cur_tick {
            nonce.tick >= self.last_rx_tick || nonce.tick <= cur_tick
        } else {
            nonce.tick >= self.last_rx_tick && nonce.tick <= cur_tick
        };

        let min_tick_good = if min_tick > cur_tick {
            nonce.tick >= min_tick || nonce.tick <= cur_tick
        } else {
            nonce.tick >= min_tick && nonce.tick <= cur_tick
        };

        // Rollover of the count window is judged against the current tick,
        // not against our own count. The last accepted count itself is
        // refused: a frame is never accepted twice.
        let count_good = if self.last_rx_count > cur_tick {
            nonce.msg_count >= self.last_rx_count || nonce.msg_count <= self.msg_count
        } else {
            nonce.msg_count >= self.last_rx_count && nonce.msg_count <= self.msg_count
        } && nonce.msg_count != self.last_rx_count;

        last_tick_good && min_tick_good && count_good
    }

    /// Applies the acceptance policy; an accepted nonce becomes the last
    /// one received, a refused one changes nothing.
    pub fn check_nonce_and_update(&mut self, nonce: &FleetNonce, now: u32) -> (r: Result<(), Error>)
        ensures
            final(self).same_config(old(self)),
            final(self).spec_msg_count() == old(self).spec_msg_count(),
            final(self).spec_last_tx_tick() == old(self).spec_last_tx_tick(),
            old(self).spec_accepts(now, nonce.tick, nonce.msg_count) ==> r is Ok
                && final(self).spec_last_rx_tick() == nonce.tick && final(self).spec_last_rx_count()
                == nonce.msg_count,
            !old(self).spec_accepts(now, nonce.tick, nonce.msg_count) ==> r == Err::<(), Error>(
                Error::InvalidNonce,
            ) && *final(self) == *old(self),
    {
        if self.check_nonce(nonce, now) {
            self.last_rx_count = nonce.msg_count;
            self.last_rx_tick = nonce.tick;
            Ok(())
        } else {
            Err(Error::InvalidNonce)
        }
    }

    /// Authenticates one received packet at timer tick `now` and gives back
    /// its plaintext. An empty payload (a bare acknowledgement) is `NoData`.
    /// The nonce bookkeeping advances as soon as the nonce is accepted.
    pub fn just_gimme_frame(&mut self, packet: &RadioPacket, now: u32) -> (r: Result<Vec<u8>, Error>)
        ensures
            final(self).same_config(old(self)),
            final(self).spec_msg_count() == old(self).spec_msg_count(),
            final(self).spec_last_tx_tick() == old(self).spec_last_tx_tick(),
            result_bytes(r) == old(self).spec_receive_outcome(packet.payload@, now),
            old(self).spec_receive_accepts(packet.payload@, now) ==> ({
                let n = frame_nonce(packet.payload@);
                &&& final(self).spec_last_rx_tick() == nonce_tick(n)
                &&& final(self).spec_last_rx_count() == nonce_count(n)
            }),
            !old(self).spec_receive_accepts(packet.payload@, now) ==> *final(self) == *old(self),
            forall|m: Seq<u8>|
                old(self).spec_receive_accepts(packet.payload@, now) && frame_body(packet.payload@)
                    == #[trigger] chacha8_sealed(
                    old(self).spec_key(),
                    frame_nonce(packet.payload@),
                    m,
                ) ==> result_bytes(r) == Ok::<Seq<u8>, Error>(m),
    {
        let nonce = parse_frame(packet.payload.as_slice())?;
        self.check_nonce_and_update(&nonce, now)?;
        open_frame(&self.key, packet.payload.as_slice())
    }

    /// Same as `just_gimme_frame`: the authenticated plaintext of one packet.
    pub fn receive_with(&mut self, packet: &RadioPacket, now: u32) -> (r: Result<Vec<u8>, Error>)
        ensures
            final(self).same_config(old(self)),
            final(self).spec_msg_count() == old(self).spec_msg_count(),
            final(self).spec_last_tx_tick() == old(self).spec_last_tx_tick(),
            result_bytes(r) == old(self).spec_receive_outcome(packet.payload@, now),
            old(self).spec_receive_accepts(packet.payload@, now) ==> ({
                let n = frame_nonce(packet.payload@);
                &&& final(self).spec_last_rx_tick() == nonce_tick(n)
                &&& final(self).spec_last_rx_count() == nonce_count(n)
            }),
            !old(self).spec_receive_accepts(packet.payload@, now) ==> *final(self) == *old(self),
    {
        self.just_gimme_frame(packet, now)
    }

    /// Whether the link has been quiet long enough that an empty frame should
    /// be sent to poll the receiver for replies: more than `POLL_PRX_INTERVAL`
    /// ticks since the last transmission.
    pub fn needs_poll(&self, now: u32) -> (r: bool)
        ensures
            r == (self.spec_current_tick(now).wrapping_sub(self.spec_last_tx_tick()) > POLL_PRX_INTERVAL),
    {
        self.ticks_since_last_tx(now) > POLL_PRX_INTERVAL
    }

    /// Whether a received payload is well shaped and its nonce passes the policy.
    pub open spec fn spec_receive_accepts(&self, p: Seq<u8>, now: u32) -> bool {
        frame_shape_error(p) is None && self.spec_accepts(
            now,
            nonce_tick(frame_nonce(p)),
            nonce_count(frame_nonce(p)),
        )
    }

    /// What receiving payload `p` at timer tick `now` gives.
    pub open spec fn spec_receive_outcome(&self, p: Seq<u8>, now: u32) -> Result<Seq<u8>, Error> {
        if frame_shape_error(p) is Some {
            Err(frame_shape_error(p)->Some_0)
        } else if !self.spec_accepts(now, nonce_tick(frame_nonce(p)), nonce_count(frame_nonce(p))) {
            Err(Error::InvalidNonce)
        } else {
            open_outcome(self.spec_key(), p)
        }
    }

    /// Receives one packet: `None` for a bare acknowledgement, else the
    /// authenticated message and the pipe it came on.
    pub fn receive(&mut self, packet: &RadioPacket, now: u32) -> (r: Result<Option<RxMessage>, Error>)
        ensures
            final(self).same_config(old(self)),
            final(self).spec_msg_count() == old(self).spec_msg_count(),
            final(self).spec_last_tx_tick() == old(self).spec_last_tx_tick(),
            packet.payload@.len() == 0 ==> (r matches Ok(None) && *final(self) == *old(self)),
            packet.payload@.len() > 0 ==> match old(self).spec_receive_outcome(packet.payload@, now) {
                Ok(m) => (r matches Ok(Some(x)) && x.msg@ == m && x.meta.pipe == packet.pipe),
                Err(e) => r == Err::<Option<RxMessage>, Error>(e),
            },
            old(self).spec_receive_accepts(packet.payload@, now) ==> ({
                let n = frame_nonce(packet.payload@);
                &&& final(self).spec_last_rx_tick() == nonce_tick(n)
                &&& final(self).spec_last_rx_count() == nonce_count(n)
            }),
            !old(self).spec_receive_accepts(packet.payload@, now) ==> *final(self) == *old(self),
            forall|m: Seq<u8>|
                old(self).spec_receive_accepts(packet.payload@, now) && frame_body(packet.payload@)
                    == #[trigger] chacha8_sealed(
                    old(self).spec_key(),
                    frame_nonce(packet.payload@),
                    m,
                ) ==> (r matches Ok(Some(x)) && x.msg@ == m && x.meta.pipe == packet.pipe),
    {
        match self.just_gimme_frame(packet, now) {
            Ok(msg) => Ok(Some(RxMessage { msg, meta: MessageMetadata { pipe: packet.pipe } })),
            Err(Error::NoData) => Ok(None),
            Err(e) => Err(e),
        }
    }
}

/// Without rollover, and with the staleness window reaching back past the
/// last accepted tick, a tick is fresh exactly when it lies between the last
/// accepted tick and the current one.
pub proof fn lemma_tick_policy_without_wrap(last: u32, cur: u32, window: u32, n: u32)
    requires
        last <= cur,
        window <= cur,
        cur - window <= last,
    ensures
        (tick_after_last(last, cur, n) && tick_in_window(cur, window, n)) == (last <= n && n <= cur),
{
}

/// Once our tick has rolled past zero since the last accepted tick, and the
/// window reaches back to it, every tick from the last accepted one to the
/// end of the range, and every tick from zero to the current one, is fresh;
/// no other tick is.
pub proof fn lemma_tick_policy_rolled(last: u32, cur: u32, window: u32, n: u32)
    requires
        last > cur,
        window > cur,
        cur.wrapping_sub(window) <= last,
    ensures
        (tick_after_last(last, cur, n) && tick_in_window(cur, window, n)) == (n >= last || n <= cur),
{
}

/// Each wrap-aware interval test is a test on distances modulo 2^32: `x`
/// lies in the interval from `lo` to `hi` exactly when it is no further on
/// from `lo` than `hi` is.
pub proof fn lemma_wrap_window_is_distance(x: u32, lo: u32, hi: u32)
    ensures
        wrap_window(x, lo, hi, lo > hi) == (x.wrapping_sub(lo) <= hi.wrapping_sub(lo)),
        wrap_window(x, lo, hi, lo > hi) == (hi.wrapping_sub(x) <= hi.wrapping_sub(lo)),
{
}

/// In general, a tick is fresh exactly when its age (how far it lies back
/// from the current tick, modulo 2^32) is no more than the age of the last
/// accepted tick and no more than the window: it lies between the later of
/// the two lower bounds and the current tick.
pub proof fn lemma_tick_policy_by_age(last: u32, cur: u32, window: u32, n: u32)
    ensures
        (tick_after_last(last, cur, n) && tick_in_window(cur, window, n)) == (cur.wrapping_sub(n)
            <= cur.wrapping_sub(last) && cur.wrapping_sub(n) <= window),
{
    lemma_wrap_window_is_distance(n, last, cur);
    lemma_wrap_window_is_distance(n, cur.wrapping_sub(window), cur);
    assert(cur.wrapping_sub(cur.wrapping_sub(window)) == window);
}

/// Replay protection: a frame numbered like the last accepted one is always
/// refused, and while the counter window has not rolled, so is any frame
/// numbered below it.
pub proof fn lemma_older_count_rejected(last_rx_count: u32, msg_count: u32, cur_tick: u32, n_count: u32)
    requires
        n_count == last_rx_count || (last_rx_count <= cur_tick && n_count < last_rx_count),
    ensures
        !count_in_range(last_rx_count, msg_count, cur_tick, n_count),
{
}

} // verus!
