use vstd::prelude::*;
use vstd::slice::slice_subrange;

use crate::Error;

verus! {

/// Largest frame an ESB payload length field can describe.
pub const MAX_FRAME: usize = 255;

/// A fixed backing buffer with a count of used bytes, capped at `MAX_FRAME`.
pub struct LilBuf {
    buf: Vec<u8>,
    used: u8,
}

impl View for LilBuf {
    type V = Seq<u8>;

    /// The bytes in use.
    closed spec fn view(&self) -> Seq<u8> {
        self.buf@.take(self.used as int)
    }
}

impl LilBuf {
    /// How many bytes the buffer can hold.
    pub closed spec fn capacity(&self) -> nat {
        if self.buf@.len() < MAX_FRAME {
            self.buf@.len()
        } else {
            MAX_FRAME as nat
        }
    }

    pub closed spec fn wf(&self) -> bool {
        self.used <= self.buf@.len()
    }

    /// An empty buffer backed by `size` bytes.
    pub fn new(size: usize) -> (r: LilBuf)
        ensures
            r.wf(),
            r@ == Seq::<u8>::empty(),
            r.capacity() == if size < MAX_FRAME { size as nat } else { MAX_FRAME as nat },
    {
        let mut buf: Vec<u8> = Vec::new();
        let mut i: usize = 0;
        while i < size
            invariant
                i <= size,
                buf@.len() == i,
            decreases size - i,
        {
            buf.push(0u8);
            i = i + 1;
        }
        let r = LilBuf { buf, used: 0 };
        assert(r@ =~= Seq::<u8>::empty());
        r
    }

    /// The bytes in use.
    pub fn as_ref(&self) -> (r: &[u8])
        requires
            self.wf(),
        ensures
            r@ == self@,
    {
        slice_subrange(self.buf.as_slice(), 0, self.used as usize)
    }

    /// Appends `other`, failing and leaving the buffer as it was when the
    /// result would exceed the capacity.
    pub fn extend_from_slice(&mut self, other: &[u8]) -> (r: Result<(), Error>)
        requires
            old(self).wf(),
        ensures
            final(self).wf(),
            final(self).capacity() == old(self).capacity(),
            old(self)@.len() + other@.len() <= old(self).capacity() ==> r is Ok && final(self)@
                == old(self)@ + other@,
            old(self)@.len() + other@.len() > old(self).capacity() ==> r == Err::<(), Error>(
                Error::BufferTooSmol) && final(self)@ == old(self)@,
    {
        let used_usize = self.used as usize;
        let cap = if self.buf.len() < MAX_FRAME {
            self.buf.len()
        } else {
            MAX_FRAME
        };
        if other.len() > cap - used_usize {
            return Err(Error::BufferTooSmol);
        }
        let ghost before = self.buf@;
        let mut i: usize = 0;
        while i < other.len()
            invariant
                i <= other@.len(),
                used_usize + other@.len() <= cap,
                cap <= self.buf@.len(),
                self.buf@.len() == before.len(),
                self.used == old(self).used,
                self.buf@.take(used_usize as int) == before.take(used_usize as int),
                forall|k: int| 0 <= k < i ==> #[trigger] self.buf@[used_usize + k] == other@[k],
            decreases other@.len() - i,
        {
            self.buf.set(used_usize + i, other[i]);
            i = i + 1;
            assert(self.buf@.take(used_usize as int) =~= before.take(used_usize as int));
        }
        self.used = (used_usize + other.len()) as u8;
        assert(self@ =~= old(self)@ + other@) by {
            assert forall|k: int| 0 <= k < other@.len() implies self.buf@[used_usize + k]
                == other@[k] by {}
            assert forall|k: int| 0 <= k < used_usize implies self.buf@[k] == before[k] by {
                assert(self.buf@.take(used_usize as int)[k] == before.take(used_usize as int)[k]);
            }
        }
        Ok(())
    }

    /// Shortens the used part to `len` bytes; a larger `len` changes nothing.
    pub fn truncate(&mut self, len: usize)
        requires
            old(self).wf(),
        ensures
            final(self).wf(),
            final(self).capacity() == old(self).capacity(),
            len < old(self)@.len() ==> final(self)@ == old(self)@.take(len as int),
            len >= old(self)@.len() ==> final(self)@ == old(self)@,
    {
        if len < self.used as usize {
            self.used = len as u8;
            assert(self@ =~= old(self)@.take(len as int));
        }
    }

    /// Number of bytes in use.
    pub fn len(&self) -> (r: usize)
        requires
            self.wf(),
        ensures
            r == self@.len(),
    {
        self.used as usize
    }

    /// Whether no byte is in use.
    pub fn is_empty(&self) -> (r: bool)
        requires
            self.wf(),
        ensures
            r == (self@.len() == 0),
    {
        self.used == 0
    }
}

} // verus!
