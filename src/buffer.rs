//! The write buffer in front of a chunk or output file: bytes are collected
//! in a fixed-size buffer and handed out in full blocks, and on a flush the
//! remainder; the count of bytes handed out is what reached the file.
use vstd::prelude::*;

verus! {

/// A fixed-size write buffer.
#[derive(Debug)]
pub struct WriteBuffer {
    /// Bytes received and not yet handed out.
    pub buffer: Vec<u8>,
    pub buffer_size: usize,
    /// Bytes handed out so far.
    pub total_written: u64,
    /// Number of blocks handed out so far.
    pub flush_count: u64,
}

/// The contents of a list of blocks, concatenated.
pub open spec fn joined(blocks: Seq<Vec<u8>>) -> Seq<u8> {
    blocks.map_values(|b: Vec<u8>| b@).flatten()
}

proof fn lemma_joined_push(blocks: Seq<Vec<u8>>, b: Vec<u8>)
    ensures
        joined(blocks.push(b)) == joined(blocks) + b@,
{
    assert(blocks.push(b).map_values(|b: Vec<u8>| b@) =~= blocks.map_values(|b: Vec<u8>| b@).push(b@));
    blocks.map_values(|b: Vec<u8>| b@).lemma_flatten_push(b@);
}

impl WriteBuffer {
    /// The buffer never holds a full block.
    pub open spec fn wf(&self) -> bool {
        &&& self.buffer_size > 0
        &&& self.buffer@.len() < self.buffer_size
    }

    /// An empty buffer of `buffer_size` bytes.
    pub fn new(buffer_size: usize) -> (r: Self)
        requires
            buffer_size > 0,
        ensures
            r.wf(),
            r.buffer_size == buffer_size,
            r.buffer@.len() == 0,
            r.total_written == 0,
            r.flush_count == 0,
    {
        WriteBuffer { buffer: Vec::new(), buffer_size, total_written: 0, flush_count: 0 }
    }

    /// Appends `data`; every time the buffer fills, its block of exactly
    /// `buffer_size` bytes is handed out, in order.
    pub fn write(&mut self, data: &[u8]) -> (r: Vec<Vec<u8>>)
        requires
            old(self).wf(),
            old(self).total_written + old(self).buffer@.len() + data@.len() <= u64::MAX,
            old(self).flush_count + data@.len() <= u64::MAX,
        ensures
            final(self).wf(),
            final(self).buffer_size == old(self).buffer_size,
            joined(r@) + final(self).buffer@ == old(self).buffer@ + data@,
            forall|k: int| 0 <= k < r@.len() ==> (#[trigger] r@[k])@.len() == old(self).buffer_size,
            final(self).total_written == old(self).total_written + joined(r@).len(),
            final(self).flush_count == old(self).flush_count + r@.len(),
    {
        let mut blocks: Vec<Vec<u8>> = Vec::new();
        let mut i: usize = 0;
        proof {
            assert(joined(blocks@) =~= Seq::<u8>::empty());
        }
        while i < data.len()
            invariant
                self.wf(),
                self.buffer_size == old(self).buffer_size,
                i <= data@.len(),
                joined(blocks@) + self.buffer@ == old(self).buffer@ + data@.subrange(0, i as int),
                forall|k: int| 0 <= k < blocks@.len() ==> (#[trigger] blocks@[k])@.len() == self.buffer_size,
                self.total_written == old(self).total_written + joined(blocks@).len(),
                self.flush_count == old(self).flush_count + blocks@.len(),
                blocks@.len() <= i,
                old(self).total_written + old(self).buffer@.len() + data@.len() <= u64::MAX,
                old(self).flush_count + data@.len() <= u64::MAX,
            decreases data@.len() - i,
        {
            let ghost before = self.buffer@;
            self.buffer.push(data[i]);
            proof {
                let x = data@[i as int];
                assert(data@.subrange(0, i + 1) =~= data@.subrange(0, i as int).push(x));
                assert(self.buffer@ == before.push(x));
                assert(joined(blocks@) + before.push(x) =~= (joined(blocks@) + before).push(x));
                assert((old(self).buffer@ + data@.subrange(0, i as int)).push(x) =~= old(self).buffer@
                    + data@.subrange(0, i as int).push(x));
                assert(joined(blocks@) + self.buffer@ =~= old(self).buffer@ + data@.subrange(0, i + 1));
            }
            if self.buffer.len() == self.buffer_size {
                let mut full: Vec<u8> = Vec::new();
                std::mem::swap(&mut full, &mut self.buffer);
                proof {
                    lemma_joined_push(blocks@, full);
                }
                blocks.push(full);
                self.total_written = self.total_written + self.buffer_size as u64;
                self.flush_count = self.flush_count + 1;
                proof {
                    assert(joined(blocks@) + self.buffer@ =~= old(self).buffer@ + data@.subrange(0, i + 1));
                }
            }
            i = i + 1;
        }
        proof {
            assert(data@.subrange(0, data@.len() as int) =~= data@);
        }
        blocks
    }

    /// Hands out whatever is buffered (possibly nothing); a non-empty flush
    /// counts as one more block.
    pub fn flush(&mut self) -> (r: Vec<u8>)
        requires
            old(self).wf(),
            old(self).total_written + old(self).buffer@.len() <= u64::MAX,
            old(self).flush_count < u64::MAX,
        ensures
            final(self).wf(),
            final(self).buffer_size == old(self).buffer_size,
            r@ == old(self).buffer@,
            final(self).buffer@.len() == 0,
            final(self).total_written == old(self).total_written + r@.len(),
            final(self).flush_count == old(self).flush_count + (if r@.len() > 0 {
                1int
            } else {
                0int
            }),
    {
        let mut out: Vec<u8> = Vec::new();
        std::mem::swap(&mut out, &mut self.buffer);
        if out.len() > 0 {
            self.total_written = self.total_written + out.len() as u64;
            self.flush_count = self.flush_count + 1;
        }
        out
    }

    /// Bytes buffered and the buffer's size.
    pub fn get_buffer_usage(&self) -> (r: (usize, usize))
        ensures
            r == (self.buffer@.len() as usize, self.buffer_size),
    {
        (self.buffer.len(), self.buffer_size)
    }

    /// Bytes handed out so far.
    pub fn get_total_written(&self) -> (r: u64)
        ensures
            r == self.total_written,
    {
        self.total_written
    }

    /// Blocks handed out so far.
    pub fn get_flush_count(&self) -> (r: u64)
        ensures
            r == self.flush_count,
    {
        self.flush_count
    }

    /// Whether nothing is buffered.
    pub fn is_empty(&self) -> (r: bool)
        ensures
            r == (self.buffer@.len() == 0),
    {
        self.buffer.len() == 0
    }

    /// Whether the buffer is full.
    pub fn is_full(&self) -> (r: bool)
        ensures
            r == (self.buffer@.len() == self.buffer_size),
    {
        self.buffer.len() == self.buffer_size
    }

    /// Room left in the buffer.
    pub fn available_space(&self) -> (r: usize)
        requires
            self.wf(),
        ensures
            r == self.buffer_size - self.buffer@.len(),
    {
        self.buffer_size - self.buffer.len()
    }
}

} // verus!
