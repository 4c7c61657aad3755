//! Blocks of memory that transfers are cut from.
use crate::buf;
use crate::proto::frame;
use bytes::BytesMut;
use std::collections::VecDeque;
use vstd::prelude::*;

verus! {

/// The number of bytes of a block.
pub const BUF_LEN: usize = 65536;

/// A queue of blocks. What was cut from a block comes back to it once it is dropped.
pub struct BytesAllocator {
    pub queue: VecDeque<BytesMut>,
}

impl BytesAllocator {
    /// The blocks hold no bytes; they only stand for memory.
    pub open spec fn wf(&self) -> bool {
        forall|i: int| 0 <= i < self.queue@.len() ==> buf::bytes_of(#[trigger] self.queue@[i]).len() == 0
    }

    pub fn with_capacity(capacity: usize) -> (a: Self)
        ensures
            a.wf(),
            a.queue@.len() == capacity,
    {
        let mut queue: VecDeque<BytesMut> = VecDeque::with_capacity(capacity);
        let mut i: usize = 0;
        while i < capacity
            invariant
                i <= capacity,
                queue@.len() == i,
                forall|j: int|
                    0 <= j < queue@.len() ==> buf::bytes_of(#[trigger] queue@[j]).len() == 0,
            decreases capacity - i,
        {
            queue.push_back(buf::with_capacity(BUF_LEN));
            i = i + 1;
        }
        BytesAllocator { queue }
    }

    /// Hands out `num_bytes` bytes, all of them zero, from the first block that has room for
    /// them, or else from a new one.
    ///
    /// Blocks without room go to the end of the queue: by the time they come to the front again,
    /// more of what was cut from them has been dropped. Whether a block has room depends on what
    /// was dropped already, so nothing is said of which block it is, and of the number of blocks
    /// only that it grows by at most one.
    pub fn reserve(&mut self, num_bytes: usize) -> (mem: BytesMut)
        requires
            old(self).wf(),
            num_bytes <= BUF_LEN,
        ensures
            final(self).wf(),
            buf::bytes_of(mem) == frame::zeros(num_bytes as nat),
            final(self).queue@.len() == old(self).queue@.len() || final(self).queue@.len() == old(
                self,
            ).queue@.len() + 1,
    {
        let n: usize = self.queue.len();
        let mut i: usize = 0;
        while i < n
            invariant
                i <= n,
                n == self.queue@.len(),
                n == old(self).queue@.len(),
                self.wf(),
                num_bytes <= BUF_LEN,
            decreases n - i,
        {
            match self.queue.pop_front() {
                Some(mut block) => {
                    if buf::try_reclaim(&mut block, num_bytes) {
                        let mem = cut(&mut block, num_bytes);
                        self.queue.push_front(block);
                        return mem;
                    }
                    self.queue.push_back(block);
                },
                None => {},
            }
            i = i + 1;
        }
        let mut block = buf::with_capacity(BUF_LEN);
        let mem = cut(&mut block, num_bytes);
        self.queue.push_front(block);
        mem
    }
}

/// Cuts zeroed bytes from a block that holds none.
fn cut(block: &mut BytesMut, num_bytes: usize) -> (mem: BytesMut)
    requires
        buf::bytes_of(*old(block)).len() == 0,
        num_bytes <= BUF_LEN,
    ensures
        buf::bytes_of(*final(block)).len() == 0,
        buf::bytes_of(mem) == frame::zeros(num_bytes as nat),
{
    buf::resize(block, num_bytes, 0);
    let mem = buf::split_to(block, num_bytes);
    assert(buf::bytes_of(mem) =~= frame::zeros(num_bytes as nat));
    mem
}

} // verus!
