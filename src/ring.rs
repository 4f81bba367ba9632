use vstd::prelude::*;

use bbqueue::prod_cons::stream::{StreamConsumer, StreamGrantW, StreamProducer};
use bbqueue::traits::coordination::cas::AtomicCoord;
use bbqueue::traits::coordination::WriteGrantError;
use bbqueue::traits::notifier::polling::Polling;
use bbqueue::traits::storage::Inline;
use bbqueue::BBQueue;

verus! {

/// Capacity in bytes of each UART ring.
pub const RING_SIZE: usize = 1024;

/// Why a write grant was refused.
#[derive(Debug, Clone, Copy, PartialEq, Eq, Structural)]
pub enum GrantError {
    /// Another write grant is outstanding.
    GrantInProgress,
    /// No contiguous region of the requested size is free.
    InsufficientSize,
}

/// The size of a granted region, or why none was granted.
pub type GrantResult = Result<usize, GrantError>;

/// A single-producer, single-consumer bipartite byte ring (bbqueue's
/// stream queue) together with its outstanding write grant, if any.
#[verifier::external_body]
pub struct ByteRing {
    prod: StreamProducer<&'static BBQueue<Inline<RING_SIZE>, AtomicCoord, Polling>>,
    cons: StreamConsumer<&'static BBQueue<Inline<RING_SIZE>, AtomicCoord, Polling>>,
    grant: Option<StreamGrantW<&'static BBQueue<Inline<RING_SIZE>, AtomicCoord, Polling>>>,
}

/// The committed bytes a ring holds, oldest first.
pub uninterp spec fn ring_bytes(r: ByteRing) -> Seq<u8>;

/// The length of the outstanding write grant of a ring, if there is one.
pub uninterp spec fn ring_grant(r: ByteRing) -> Option<nat>;

impl ByteRing {
    /// Relies on bbqueue's `BBQueue::new`, `stream_producer` and
    /// `stream_consumer`: a new queue holds nothing and has no grant out.
    /// The queue lives as long as the program, as the rings of a node do.
    #[verifier::external_body]
    pub fn new() -> (r: ByteRing)
        ensures
            ring_bytes(r) == Seq::<u8>::empty(),
            ring_grant(r) is None,
    {
        let q: &'static BBQueue<Inline<RING_SIZE>, AtomicCoord, Polling> = Box::leak(
            Box::new(BBQueue::new()),
        );
        ByteRing { prod: q.stream_producer(), cons: q.stream_consumer(), grant: None }
    }

    /// Relies on bbqueue's `StreamProducer::grant_exact`: on success it hands
    /// out a region of exactly `size` bytes and nothing is committed yet; it
    /// refuses while another write grant is out; on failure the queue is as
    /// it was. With no grant out, a grant succeeds whenever the bytes held
    /// plus `size` are at most half the capacity: unwrapped, either the tail
    /// or the space before the read position is that large; wrapped, the
    /// wrap point lies past the middle, so the gap up to the read position is
    /// larger than that. `size` is bounded so that its sums with the
    /// positions cannot overflow.
    #[verifier::external_body]
    pub fn write_grant(&mut self, size: usize) -> (r: GrantResult)
        requires
            size <= RING_SIZE,
        ensures
            ring_bytes(*final(self)) == ring_bytes(*old(self)),
            r matches Ok(n) ==> n == size && ring_grant(*old(self)) is None,
            r is Ok ==> ring_grant(*final(self)) == Some(size as nat),
            r is Err ==> ring_grant(*final(self)) == ring_grant(*old(self)),
            ring_grant(*old(self)) is Some ==> (r matches Err(e) && e == GrantError::GrantInProgress),
            ring_grant(*old(self)) is None && ring_bytes(*old(self)).len() + size <= RING_SIZE / 2 ==> r is Ok,
    {
        match self.prod.grant_exact(size) {
            Ok(g) => {
                self.grant = Some(g);
                Ok(size)
            },
            Err(WriteGrantError::GrantInProgress) => Err(GrantError::GrantInProgress),
            Err(WriteGrantError::InsufficientSize) => Err(GrantError::InsufficientSize),
        }
    }

    /// Relies on bbqueue's `StreamGrantW::commit`: the first `data.len()`
    /// bytes of the grant, here `data`, become readable after what the queue
    /// already holds, and the grant ends.
    #[verifier::external_body]
    pub fn commit(&mut self, data: &[u8])
        requires
            ring_grant(*old(self)) matches Some(n) && data@.len() <= n,
        ensures
            ring_bytes(*final(self)) == ring_bytes(*old(self)) + data@,
            ring_grant(*final(self)) is None,
    {
        if let Some(mut g) = self.grant.take() {
            g[..data.len()].copy_from_slice(data);
            g.commit(data.len());
        }
    }

    /// Relies on bbqueue's `StreamConsumer::read` and `StreamGrantR::release`:
    /// `read` fails only when nothing is committed, and otherwise gives the
    /// oldest committed bytes up to the end of the buffer, which are then
    /// released.
    #[verifier::external_body]
    pub fn read(&mut self) -> (r: Vec<u8>)
        ensures
            ring_grant(*final(self)) == ring_grant(*old(self)),
            r@.len() <= ring_bytes(*old(self)).len(),
            r@ == ring_bytes(*old(self)).take(r@.len() as int),
            ring_bytes(*final(self)) == ring_bytes(*old(self)).skip(r@.len() as int),
            (r@.len() == 0) == (ring_bytes(*old(self)).len() == 0),
    {
        match self.cons.read() {
            Ok(g) => {
                let v = g.to_vec();
                g.release(v.len());
                v
            },
            Err(_) => Vec::new(),
        }
    }
}

/// One operation on a ring, as seen through its contracts: a commit of some
/// bytes, or a read that takes some bytes off the front.
pub enum RingStep {
    Commit(Seq<u8>),
    Read(nat),
}

/// The bytes a ring holds and the bytes it has delivered after `steps`,
/// starting from `held`. A read takes at most what is held.
pub open spec fn ring_run(held: Seq<u8>, steps: Seq<RingStep>) -> (Seq<u8>, Seq<u8>)
    decreases steps.len(),
{
    if steps.len() == 0 {
        (held, Seq::<u8>::empty())
    } else {
        let (h, d) = ring_run(held, steps.drop_last());
        match steps.last() {
            RingStep::Commit(x) => (h + x, d),
            RingStep::Read(n) => if n <= h.len() {
                (h.skip(n as int), d + h.take(n as int))
            } else {
                (h, d)
            },
        }
    }
}

/// Every byte committed by `steps`, in order.
pub open spec fn committed(steps: Seq<RingStep>) -> Seq<u8>
    decreases steps.len(),
{
    if steps.len() == 0 {
        Seq::<u8>::empty()
    } else {
        match steps.last() {
            RingStep::Commit(x) => committed(steps.drop_last()) + x,
            RingStep::Read(n) => committed(steps.drop_last()),
        }
    }
}

/// Whatever the interleaving of commits and reads, the ring delivers bytes
/// in the order they were committed, none twice and none lost: what was
/// delivered followed by what is still held is exactly what was held at the
/// start followed by everything committed.
pub proof fn lemma_ring_fifo(held: Seq<u8>, steps: Seq<RingStep>)
    ensures
        ring_run(held, steps).1 + ring_run(held, steps).0 == held + committed(steps),
    decreases steps.len(),
{
    if steps.len() > 0 {
        lemma_ring_fifo(held, steps.drop_last());
        let (h, d) = ring_run(held, steps.drop_last());
        match steps.last() {
            RingStep::Commit(x) => {
                assert(d + (h + x) =~= (d + h) + x);
                assert(held + (committed(steps.drop_last()) + x) =~= (held + committed(steps.drop_last())) + x);
            },
            RingStep::Read(n) => {
                if n <= h.len() {
                    assert((d + h.take(n as int)) + h.skip(n as int) =~= d + h);
                }
            },
        }
    }
}

} // verus!
