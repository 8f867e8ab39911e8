//! The flash capability: erase, write and read over one memory region.
use vstd::prelude::*;
use crate::error::DriverError;

verus! {

/// Value of every byte of an erased flash block.
pub const ERASED_BYTE: u8 = 0xFF;

/// `mem` with `len` bytes from `start` erased.
pub open spec fn erased(mem: Seq<u8>, start: int, len: int) -> Seq<u8> {
    Seq::new(mem.len(), |i: int| if start <= i < start + len { ERASED_BYTE } else { mem[i] })
}

/// `mem` with `bytes` programmed from `start`.
pub open spec fn overwritten(mem: Seq<u8>, start: int, bytes: Seq<u8>) -> Seq<u8> {
    Seq::new(mem.len(), |i: int| if start <= i < start + bytes.len() { bytes[i - start] } else { mem[i] })
}

/// `after` is `before` with some of the `len` bytes from `start` erased: what an
/// erase interrupted by a fault may leave.
pub open spec fn partly_erased(before: Seq<u8>, after: Seq<u8>, start: int, len: int) -> bool {
    &&& after.len() == before.len()
    &&& forall|i: int|
        0 <= i < before.len() ==> #[trigger] after[i] == before[i] || (start <= i < start + len
            && after[i] == ERASED_BYTE)
}

/// `after` is `before` with some of `bytes` programmed from `start`: what a write
/// interrupted by a fault may leave.
pub open spec fn partly_written(before: Seq<u8>, after: Seq<u8>, start: int, bytes: Seq<u8>) -> bool {
    &&& after.len() == before.len()
    &&& forall|i: int|
        0 <= i < before.len() ==> #[trigger] after[i] == before[i] || (start <= i < start
            + bytes.len() && after[i] == bytes[i - start])
}

/// A flash memory region, driven by a per-target adapter.
///
/// A failed erase or write may have done part of its work, and nothing outside its
/// range. Reads are plain memory accesses: they fail only outside the region, so the
/// boot decision is a function of the flash contents. An adapter whose bus can fault
/// on a read retries it within its timeout rather than report the fault.
pub trait Flash {
    /// Every byte of the region, from its first address.
    spec fn memory(&self) -> Seq<u8>;

    /// Number of bytes in the region.
    fn capacity(&self) -> (r: usize)
        ensures
            r == self.memory().len(),
    ;

    /// Erases `len` bytes from `start`, whole erase blocks only.
    fn erase(&mut self, start: usize, len: usize) -> (r: Result<(), DriverError>)
        ensures
            r is Ok ==> start + len <= old(self).memory().len() && final(self).memory()
                == erased(old(self).memory(), start as int, len as int),
            r is Err ==> partly_erased(
                old(self).memory(),
                final(self).memory(),
                start as int,
                len as int,
            ),
    ;

    /// Programs `bytes` from `start`.
    fn write(&mut self, start: usize, bytes: &[u8]) -> (r: Result<(), DriverError>)
        ensures
            r is Ok ==> start + bytes@.len() <= old(self).memory().len() && final(self).memory()
                == overwritten(old(self).memory(), start as int, bytes@),
            r is Err ==> partly_written(old(self).memory(), final(self).memory(), start as int, bytes@),
    ;

    /// Reads `len` bytes from `start`.
    fn read(&self, start: usize, len: usize) -> (r: Result<Vec<u8>, DriverError>)
        ensures
            (r is Ok) == (start + len <= self.memory().len()),
            r is Ok ==> r->Ok_0@ == self.memory().subrange(start as int, start + len),
    ;
}

/// A flash region held in ram: a host-side stand-in for a device, which can be made
/// to lock itself after a number of writes.
pub struct RamFlash {
    mem: Vec<u8>,
    erase_block: usize,
    writes_left: Option<usize>,
}

impl RamFlash {
    /// A fully erased region of `size` bytes, erased in blocks of `erase_block` bytes.
    pub fn new(size: usize, erase_block: usize) -> (r: RamFlash)
        ensures
            r.memory() == Seq::new(size as nat, |i: int| ERASED_BYTE),
    {
        let mut mem: Vec<u8> = Vec::new();
        let mut i: usize = 0;
        while i < size
            invariant
                i <= size,
                mem@ == Seq::new(i as nat, |k: int| ERASED_BYTE),
            decreases size - i,
        {
            mem.push(ERASED_BYTE);
            i = i + 1;
            assert(mem@ =~= Seq::new(i as nat, |k: int| ERASED_BYTE));
        }
        RamFlash { mem, erase_block, writes_left: None }
    }

    /// After `writes` more successful writes, every write fails with `MemoryIsLocked`.
    pub fn lock_after(&mut self, writes: usize)
        ensures
            final(self).memory() == old(self).memory(),
    {
        self.writes_left = Some(writes);
    }
}

impl Flash for RamFlash {
    closed spec fn memory(&self) -> Seq<u8> {
        self.mem@
    }

    fn capacity(&self) -> (r: usize) {
        self.mem.len()
    }

    fn erase(&mut self, start: usize, len: usize) -> (r: Result<(), DriverError>) {
        if self.erase_block == 0 || start % self.erase_block != 0 || len % self.erase_block != 0 {
            return Err(DriverError::MisalignedAccess);
        }
        if start > self.mem.len() || len > self.mem.len() - start {
            return Err(DriverError::InvalidAddress);
        }
        let ghost before = self.mem@;
        let end: usize = start + len;
        let mut i: usize = start;
        while i < end
            invariant
                end == start + len,
                start <= i <= start + len <= before.len(),
                self.mem@.len() == before.len(),
                forall|k: int|
                    0 <= k < before.len() ==> #[trigger] self.mem@[k] == if start <= k < i {
                        ERASED_BYTE
                    } else {
                        before[k]
                    },
            decreases end - i,
        {
            self.mem.set(i, ERASED_BYTE);
            i = i + 1;
        }
        assert(self.mem@ =~= erased(before, start as int, len as int));
        Ok(())
    }

    fn write(&mut self, start: usize, bytes: &[u8]) -> (r: Result<(), DriverError>) {
        if let Some(0) = self.writes_left {
            return Err(DriverError::MemoryIsLocked);
        }
        if start > self.mem.len() || bytes.len() > self.mem.len() - start {
            return Err(DriverError::InvalidAddress);
        }
        let ghost before = self.mem@;
        let mut i: usize = 0;
        while i < bytes.len()
            invariant
                i <= bytes@.len(),
                start + bytes@.len() <= before.len(),
                before.len() <= usize::MAX,
                self.mem@.len() == before.len(),
                forall|k: int|
                    0 <= k < before.len() ==> #[trigger] self.mem@[k] == if start <= k < start
                        + i {
                        bytes@[k - start]
                    } else {
                        before[k]
                    },
            decreases bytes@.len() - i,
        {
            self.mem.set(start + i, bytes[i]);
            i = i + 1;
        }
        assert(self.mem@ =~= overwritten(before, start as int, bytes@));
        if let Some(n) = self.writes_left {
            if n > 0 {
                self.writes_left = Some(n - 1);
            }
        }
        Ok(())
    }

    fn read(&self, start: usize, len: usize) -> (r: Result<Vec<u8>, DriverError>) {
        if start > self.mem.len() || len > self.mem.len() - start {
            return Err(DriverError::InvalidAddress);
        }
        let mut out: Vec<u8> = Vec::new();
        let mut i: usize = 0;
        while i < len
            invariant
                i <= len,
                start + len <= self.mem@.len(),
                self.mem@.len() <= usize::MAX,
                out@ == self.mem@.subrange(start as int, start + i),
            decreases len - i,
        {
            out.push(self.mem[start + i]);
            i = i + 1;
            assert(out@ =~= self.mem@.subrange(start as int, start + i));
        }
        Ok(out)
    }
}

} // verus!
