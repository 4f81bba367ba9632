use vstd::prelude::*;

use crate::ring::{ring_bytes, ring_grant, ByteRing, RING_SIZE};

verus! {

/// Largest DMA transfer the UARTE can be programmed for (its `MAXCNT` field).
pub const MAX_DMA_BLOCK: usize = 255;

/// The idle timer of the UART receiver. Every received byte clears it in
/// hardware, so it only expires once the line has been silent for a whole
/// period; its interrupt then asks the UART interrupt for an idle flush.
pub struct UarteTimer {
    idle_us: u32,
    running: bool,
}

impl UarteTimer {
    /// A timer that is not running yet.
    pub fn new() -> (r: UarteTimer)
        ensures
            !r.spec_running(),
    {
        UarteTimer { idle_us: 0, running: false }
    }

    pub closed spec fn spec_idle_us(&self) -> u32 {
        self.idle_us
    }

    pub closed spec fn spec_running(&self) -> bool {
        self.running
    }

    /// Starts the timer as a periodic one with a period of `microsecs`.
    pub fn init(&mut self, microsecs: u32)
        ensures
            final(self).spec_running(),
            final(self).spec_idle_us() == microsecs,
    {
        self.idle_us = microsecs;
        self.running = true;
    }

    /// The timer expired: raise the timeout flag of the UART receiver, which
    /// the caller then pends.
    pub fn interrupt(&self, irq: &mut UarteIrq)
        ensures
            final(irq).spec_timeout(),
            final(irq).same_rings(old(irq)),
            final(irq).spec_block_size() == old(irq).spec_block_size(),
            final(irq).spec_rx_active() == old(irq).spec_rx_active(),
            old(irq).wf() ==> final(irq).wf(),
    {
        irq.timeout_flag = true;
    }
}

/// The UARTE events latched at the start of an interrupt.
#[derive(Debug, Clone, Copy, PartialEq, Eq, Structural)]
pub struct UarteEvents {
    /// The DMA receive buffer is full (or was flushed).
    pub endrx: bool,
    /// A DMA transmission ended.
    pub endtx: bool,
    /// A line error was flagged.
    pub error: bool,
    /// At least one byte arrived during this reception.
    pub rxdrdy: bool,
}

/// What the interrupt hands back to the hardware side.
#[derive(Debug, Clone, Copy, PartialEq, Eq, Structural)]
pub struct RxOutcome {
    /// Bytes committed to the inbound ring.
    pub amount: usize,
    /// Whether a new DMA reception of one block must be started.
    pub start_rx: bool,
}

/// The interrupt side of the UART receiver: it owns the producer end of the
/// inbound ring, whose write grant is the buffer the DMA receives into.
pub struct UarteIrq {
    incoming: ByteRing,
    outgoing: ByteRing,
    timeout_flag: bool,
    rx_active: bool,
    block_size: usize,
}

impl UarteIrq {
    pub closed spec fn spec_incoming(&self) -> ByteRing {
        self.incoming
    }

    pub closed spec fn spec_outgoing(&self) -> ByteRing {
        self.outgoing
    }

    pub closed spec fn spec_timeout(&self) -> bool {
        self.timeout_flag
    }

    /// Whether a DMA reception into the current write grant is live.
    pub closed spec fn spec_rx_active(&self) -> bool {
        self.rx_active
    }

    pub closed spec fn spec_block_size(&self) -> nat {
        self.block_size as nat
    }

    /// A reception is live exactly when a write grant of one block is out.
    pub closed spec fn wf(&self) -> bool {
        &&& 0 < self.block_size <= MAX_DMA_BLOCK
        &&& self.rx_active ==> ring_grant(self.incoming) == Some(self.block_size as nat)
        &&& !self.rx_active ==> ring_grant(self.incoming) is None
        &&& ring_grant(self.outgoing) is None
    }

    pub open spec fn same_rings(&self, other: &Self) -> bool {
        &&& ring_bytes(self.spec_incoming()) == ring_bytes(other.spec_incoming())
        &&& ring_bytes(self.spec_outgoing()) == ring_bytes(other.spec_outgoing())
    }

    /// A receiver over two empty rings that receives in blocks of
    /// `block_size` bytes; the DMA cannot take an empty block or one of more
    /// than `MAX_DMA_BLOCK` bytes.
    pub fn new(block_size: usize) -> (r: Option<UarteIrq>)
        ensures
            (0 < block_size <= MAX_DMA_BLOCK) == r is Some,
            r matches Some(irq) ==> ({
                &&& irq.wf()
                &&& ring_bytes(irq.spec_incoming()) == Seq::<u8>::empty()
                &&& ring_bytes(irq.spec_outgoing()) == Seq::<u8>::empty()
                &&& !irq.spec_timeout()
                &&& !irq.spec_rx_active()
                &&& irq.spec_block_size() == block_size
            }),
    {
        if block_size == 0 || block_size > MAX_DMA_BLOCK {
            return None;
        }
        let irq = UarteIrq {
            incoming: ByteRing::new(),
            outgoing: ByteRing::new(),
            timeout_flag: false,
            rx_active: false,
            block_size,
        };
        Some(irq)
    }

    /// Takes the first write grant; `true` when a DMA reception into it must be started.
    pub fn init(&mut self) -> (r: bool)
        requires
            old(self).wf(),
            !old(self).spec_rx_active(),
        ensures
            final(self).wf(),
            final(self).same_rings(old(self)),
            final(self).spec_timeout() == old(self).spec_timeout(),
            final(self).spec_block_size() == old(self).spec_block_size(),
            r == final(self).spec_rx_active(),
            ring_bytes(old(self).spec_incoming()).len() + old(self).spec_block_size() <= RING_SIZE / 2 ==> r,
    {
        let g = self.incoming.write_grant(self.block_size);
        self.rx_active = g.is_ok();
        self.rx_active
    }

    /// Clears the timeout flag and tells whether the pending bytes must be
    /// flushed: the timer expired, bytes arrived, and the DMA buffer did not
    /// fill by itself. The flag is only looked at when the buffer did not fill.
    pub fn idle_flush_due(&mut self, events: &UarteEvents) -> (r: bool)
        ensures
            r == (!events.endrx && old(self).spec_timeout() && events.rxdrdy),
            final(self).spec_timeout() == (events.endrx && old(self).spec_timeout()),
            final(self).same_rings(old(self)),
            final(self).spec_rx_active() == old(self).spec_rx_active(),
            final(self).spec_block_size() == old(self).spec_block_size(),
            old(self).wf() ==> final(self).wf(),
    {
        if events.endrx {
            return false;
        }
        let timed_out = self.timeout_flag;
        self.timeout_flag = false;
        timed_out && events.rxdrdy
    }

    /// Ends a reception of which the DMA wrote `received` into the grant.
    /// The count is only trusted when bytes arrived (`rxdrdy`). When bytes
    /// arrived, or no reception was live, the grant is committed and a new
    /// one of one block is asked for; if the ring has no room the receiver
    /// stalls until the next timeout.
    pub fn rx_complete(&mut self, rxdrdy: bool, received: &[u8]) -> (r: RxOutcome)
        requires
            old(self).wf(),
            received@.len() <= old(self).spec_block_size(),
        ensures
            final(self).wf(),
            final(self).spec_timeout() == old(self).spec_timeout(),
            final(self).spec_block_size() == old(self).spec_block_size(),
            ring_bytes(final(self).spec_outgoing()) == ring_bytes(old(self).spec_outgoing()),
            r.amount == (if rxdrdy { received@.len() } else { 0 }),
            r.amount > 0 || !old(self).spec_rx_active() ==> ring_bytes(final(self).spec_incoming())
                == ring_bytes(old(self).spec_incoming()) + (if old(self).spec_rx_active() {
                received@
            } else {
                Seq::<u8>::empty()
            }),
            r.amount > 0 || !old(self).spec_rx_active() ==> r.start_rx == final(self).spec_rx_active(),
            (r.amount > 0 || !old(self).spec_rx_active()) && ring_bytes(final(self).spec_incoming()).len()
                + old(self).spec_block_size() <= RING_SIZE / 2 ==> r.start_rx,
            r.amount == 0 && old(self).spec_rx_active() ==> !r.start_rx && final(self).spec_rx_active()
                && ring_bytes(final(self).spec_incoming()) == ring_bytes(old(self).spec_incoming()),
    {
        let amount: usize = if rxdrdy {
            received.len()
        } else {
            0
        };
        if amount == 0 && self.rx_active {
            return RxOutcome { amount, start_rx: false };
        }
        if self.rx_active {
            self.incoming.commit(received);
            self.rx_active = false;
        }
        let g = self.incoming.write_grant(self.block_size);
        self.rx_active = g.is_ok();
        RxOutcome { amount, start_rx: self.rx_active }
    }

    /// Application side: queues `data` for transmission, all or nothing.
    pub fn write(&mut self, data: &[u8]) -> (r: Result<(), ()>)
        requires
            old(self).wf(),
        ensures
            final(self).wf(),
            final(self).spec_timeout() == old(self).spec_timeout(),
            final(self).spec_rx_active() == old(self).spec_rx_active(),
            final(self).spec_block_size() == old(self).spec_block_size(),
            ring_bytes(final(self).spec_incoming()) == ring_bytes(old(self).spec_incoming()),
            r is Ok ==> ring_bytes(final(self).spec_outgoing()) == ring_bytes(old(self).spec_outgoing())
                + data@,
            r is Err ==> ring_bytes(final(self).spec_outgoing()) == ring_bytes(old(self).spec_outgoing()),
            ring_grant(old(self).spec_outgoing()) is None ==> ring_grant(final(self).spec_outgoing()) is None,
            data@.len() > RING_SIZE ==> r is Err,
            ring_bytes(old(self).spec_outgoing()).len() + data@.len() <= RING_SIZE / 2 ==> r is Ok,
    {
        if data.len() > RING_SIZE {
            return Err(());
        }
        match self.outgoing.write_grant(data.len()) {
            Ok(_) => {
                self.outgoing.commit(data);
                Ok(())
            },
            Err(_) => Err(()),
        }
    }

    /// Application side: every received byte, oldest first; the inbound ring
    /// is left empty.
    pub fn read(&mut self) -> (r: Vec<u8>)
        requires
            old(self).wf(),
        ensures
            final(self).wf(),
            final(self).spec_timeout() == old(self).spec_timeout(),
            final(self).spec_rx_active() == old(self).spec_rx_active(),
            final(self).spec_block_size() == old(self).spec_block_size(),
            r@ == ring_bytes(old(self).spec_incoming()),
            ring_bytes(final(self).spec_incoming()) == Seq::<u8>::empty(),
            ring_bytes(final(self).spec_outgoing()) == ring_bytes(old(self).spec_outgoing()),
    {
        let mut out: Vec<u8> = Vec::new();
        loop
            invariant
                self.wf(),
                self.spec_timeout() == old(self).spec_timeout(),
                self.spec_rx_active() == old(self).spec_rx_active(),
                self.spec_block_size() == old(self).spec_block_size(),
                ring_bytes(self.spec_outgoing()) == ring_bytes(old(self).spec_outgoing()),
                out@ + ring_bytes(self.spec_incoming()) == ring_bytes(old(self).spec_incoming()),
            ensures
                self.wf(),
                self.spec_timeout() == old(self).spec_timeout(),
                self.spec_rx_active() == old(self).spec_rx_active(),
                self.spec_block_size() == old(self).spec_block_size(),
                ring_bytes(self.spec_outgoing()) == ring_bytes(old(self).spec_outgoing()),
                out@ == ring_bytes(old(self).spec_incoming()),
                ring_bytes(self.spec_incoming()) == Seq::<u8>::empty(),
            decreases ring_bytes(self.spec_incoming()).len(),
        {
            let ghost held = ring_bytes(self.spec_incoming());
            let mut chunk = self.incoming.read();
            if chunk.len() == 0 {
                assert(held =~= Seq::<u8>::empty());
                assert(out@ =~= out@ + held);
                break;
            }
            let ghost before = out@;
            let ghost got = chunk@;
            out.append(&mut chunk);
            assert(out@ == before + got);
            assert(held.take(got.len() as int) + held.skip(got.len() as int) =~= held);
            assert(out@ + ring_bytes(self.spec_incoming()) =~= before + held);
        }
        out
    }

    /// Application side: reserves `room` bytes for transmission and fills
    /// them with `data`, or with nothing when `data` does not fit. Fails, and
    /// changes nothing, when the reservation is refused.
    pub fn write_within(&mut self, data: &[u8], room: usize) -> (r: Result<(), ()>)
        requires
            old(self).wf(),
        ensures
            final(self).wf(),
            final(self).spec_timeout() == old(self).spec_timeout(),
            final(self).spec_rx_active() == old(self).spec_rx_active(),
            final(self).spec_block_size() == old(self).spec_block_size(),
            ring_bytes(final(self).spec_incoming()) == ring_bytes(old(self).spec_incoming()),
            r is Ok && data@.len() <= room ==> ring_bytes(final(self).spec_outgoing()) == ring_bytes(
                old(self).spec_outgoing(),
            ) + data@,
            r is Ok && data@.len() > room ==> ring_bytes(final(self).spec_outgoing()) == ring_bytes(
                old(self).spec_outgoing(),
            ),
            r is Err ==> ring_bytes(final(self).spec_outgoing()) == ring_bytes(old(self).spec_outgoing()),
            ring_grant(old(self).spec_outgoing()) is None ==> ring_grant(final(self).spec_outgoing()) is None,
            room > RING_SIZE ==> r is Err,
            ring_bytes(old(self).spec_outgoing()).len() + room <= RING_SIZE / 2 ==> r is Ok,
    {
        if room > RING_SIZE {
            return Err(());
        }
        match self.outgoing.write_grant(room) {
            Ok(_) => {
                if data.len() <= room {
                    self.outgoing.commit(data);
                } else {
                    self.outgoing.commit(&[]);
                    assert(ring_bytes(old(self).spec_outgoing()) + Seq::<u8>::empty() =~= ring_bytes(
                        old(self).spec_outgoing(),
                    ));
                }
                Ok(())
            },
            Err(_) => Err(()),
        }
    }

    /// Interrupt side: the next bytes to hand to a DMA transmission, which
    /// are taken off the outbound ring.
    pub fn take_tx(&mut self) -> (r: Vec<u8>)
        requires
            old(self).wf(),
        ensures
            final(self).wf(),
            final(self).spec_timeout() == old(self).spec_timeout(),
            final(self).spec_rx_active() == old(self).spec_rx_active(),
            final(self).spec_block_size() == old(self).spec_block_size(),
            ring_bytes(final(self).spec_incoming()) == ring_bytes(old(self).spec_incoming()),
            r@.len() <= ring_bytes(old(self).spec_outgoing()).len(),
            r@ == ring_bytes(old(self).spec_outgoing()).take(r@.len() as int),
            ring_bytes(final(self).spec_outgoing()) == ring_bytes(old(self).spec_outgoing()).skip(
                r@.len() as int,
            ),
            (r@.len() == 0) == (ring_bytes(old(self).spec_outgoing()).len() == 0),
    {
        self.outgoing.read()
    }
}

} // verus!
