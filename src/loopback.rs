//! A target whose memory is a region held by the calling process itself.
use vstd::prelude::*;

use crate::error::ProcError;
use crate::flat::Flat;
use crate::outcome::{is_full, read_result};
use crate::proc::ProcT;

verus! {

/// A simulated process: `memory` is mapped at addresses
/// `base .. base + memory.len()`, and nothing else is mapped.
pub struct LoopbackTarget {
    pub pid: isize,
    pub base: usize,
    pub memory: Vec<u8>,
}

impl LoopbackTarget {
    /// The range `addr .. addr + len` lies wholly in the mapped region.
    pub open spec fn mapped(&self, addr: int, len: nat) -> bool {
        self.base <= addr && addr + len <= self.base + self.memory@.len()
    }

    /// The memory after `data` has been copied in at `addr`.
    pub open spec fn spliced(&self, addr: int, data: Seq<u8>) -> Seq<u8> {
        let off = addr - self.base;
        self.memory@.subrange(0, off) + data + self.memory@.subrange(off + data.len(), self.memory@.len() as int)
    }

    /// A target of process id `pid` with `size` zero bytes mapped at `base`.
    pub fn new(pid: isize, base: usize, size: usize) -> (r: LoopbackTarget)
        ensures
            r.pid == pid,
            r.base == base,
            r.memory@ == Seq::new(size as nat, |i: int| 0u8),
    {
        LoopbackTarget { pid, base, memory: crate::outcome::zeroed_buffer(size) }
    }

    /// Whether `addr .. addr + len` is mapped, computed without overflow.
    fn covers(&self, addr: usize, len: usize) -> (r: bool)
        ensures
            r == self.mapped(addr as int, len as nat),
    {
        addr >= self.base && len <= self.memory.len() && addr - self.base <= self.memory.len() - len
    }
}

impl ProcT for LoopbackTarget {
    open spec fn may_read(&self, proc_address: usize, len: nat, r: (bool, usize), bytes: Seq<u8>) -> bool {
        if self.mapped(proc_address as int, len) {
            is_full(r, len) && bytes == self.memory@.subrange(
                proc_address - self.base,
                proc_address - self.base + len,
            )
        } else {
            r == (false, 0usize)
        }
    }

    open spec fn may_write(&self, proc_address: usize, data: Seq<u8>, r: (bool, usize), after: Self) -> bool {
        &&& after.pid == self.pid
        &&& after.base == self.base
        &&& if self.mapped(proc_address as int, data.len()) {
            is_full(r, data.len()) && after.memory@ == self.spliced(proc_address as int, data)
        } else {
            r == (false, 0usize) && after.memory@ == self.memory@
        }
    }

    fn pid(&self) -> isize {
        self.pid
    }

    fn read_raw(&self, proc_address: usize, buf: &mut Vec<u8>) -> (r: (bool, usize)) {
        let len = buf.len();
        if !self.covers(proc_address, len) {
            return (false, 0);
        }
        let off = proc_address - self.base;
        let mlen = self.memory.len();
        let mut i: usize = 0;
        while i < len
            invariant
                buf@.len() == len,
                self.memory@.len() == mlen,
                off + len <= self.memory@.len(),
                i <= len,
                forall|j: int| 0 <= j < i ==> buf@[j] == self.memory@[off + j],
            decreases len - i,
        {
            buf.set(i, self.memory[off + i]);
            i = i + 1;
        }
        assert(buf@ =~= self.memory@.subrange(off as int, off + len));
        (true, len)
    }

    fn write_raw(&mut self, proc_address: usize, data: &[u8]) -> (r: (bool, usize)) {
        let len = data.len();
        if !self.covers(proc_address, len) {
            return (false, 0);
        }
        let off = proc_address - self.base;
        let ghost before = self.memory@;
        let mlen = self.memory.len();
        let mut i: usize = 0;
        while i < len
            invariant
                before.len() == mlen,
                self.pid == old(self).pid,
                self.base == old(self).base,
                before == old(self).memory@,
                self.memory@.len() == before.len(),
                off + len <= before.len(),
                off == proc_address - self.base,
                len == data@.len(),
                i <= len,
                forall|j: int| 0 <= j < off ==> self.memory@[j] == before[j],
                forall|j: int| off <= j < off + i ==> self.memory@[j] == data@[j - off],
                forall|j: int| off + len <= j < before.len() ==> self.memory@[j] == before[j],
            decreases len - i,
        {
            self.memory.set(off + i, data[i]);
            i = i + 1;
        }
        assert(self.memory@ =~= old(self).spliced(proc_address as int, data@));
        (true, len)
    }
}

/// Writing a value that the target reports as fully written, then reading a
/// value of the same type at the same address, gives back that value.
pub proof fn lemma_write_then_read<T: Flat>(
    target: LoopbackTarget,
    after: LoopbackTarget,
    addr: usize,
    v: T,
    w: (bool, usize),
    r: (bool, usize),
    b: Seq<u8>,
)
    requires
        target.may_write(addr, T::to_bytes_spec(v), w, after),
        is_full(w, T::size_spec()),
        after.may_read(addr, T::size_spec(), r, b),
    ensures
        read_result::<T>(r, b) == Ok::<T, ProcError>(v),
{
    T::lemma_round_trip(v);
    T::lemma_size_positive();
    let data = T::to_bytes_spec(v);
    assert(target.mapped(addr as int, data.len()));
    let off = addr - target.base;
    assert(after.memory@.subrange(off, off + data.len()) =~= data);
}

/// A read from a range that is not wholly mapped fails, and yields no value.
pub proof fn lemma_unmapped_read_fails<T: Flat>(
    target: LoopbackTarget,
    addr: usize,
    r: (bool, usize),
    b: Seq<u8>,
)
    requires
        !target.mapped(addr as int, T::size_spec()),
        target.may_read(addr, T::size_spec(), r, b),
    ensures
        read_result::<T>(r, b) == Err::<T, ProcError>(ProcError::TransferFailed),
{
    T::lemma_size_positive();
}

} // verus!
