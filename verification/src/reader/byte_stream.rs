//! A stream of the bytes of a region, read from its start on.
use std::sync::Arc;
use vstd::prelude::*;
use vstd::slice::{slice_subrange, slice_to_vec};

verus! {

/// `Arc::clone` of std: a new handle on the same bytes.
#[verifier::external_body]
pub(crate) fn share_bytes(source: &Arc<Vec<u8>>) -> (r: Arc<Vec<u8>>)
    ensures
        r@ == source@,
{
    Arc::clone(source)
}

/// Reads the bytes of a region of a source, in order.
#[derive(Debug)]
pub struct ByteStream {
    source: Arc<Vec<u8>>,
    end: usize,
    offset: usize,
}

impl View for ByteStream {
    type V = Seq<u8>;

    /// The bytes still to read.
    closed spec fn view(&self) -> Seq<u8> {
        self.source@.subrange(self.offset as int, self.end as int)
    }
}

impl ByteStream {
    #[verifier::type_invariant]
    closed spec fn in_source(&self) -> bool {
        self.offset <= self.end <= self.source@.len()
    }

    /// The stream over the bytes `offset` to `end` (excluded) of `source`.
    pub fn new_from_parts(source: Arc<Vec<u8>>, end: usize, offset: usize) -> (r: ByteStream)
        requires
            offset <= end <= source@.len(),
        ensures
            r@ == source@.subrange(offset as int, end as int),
    {
        ByteStream { source, end, offset }
    }

    /// Reads at most `max` bytes: as many as there are left, up to `max`.
    pub fn read(&mut self, max: usize) -> (r: Vec<u8>)
        ensures
            r@.len() == (if max < old(self)@.len() { max as int } else { old(self)@.len() as int }),
            old(self)@ == r@ + final(self)@,
    {
        proof {
            use_type_invariant(&*self);
        }
        let left = self.end - self.offset;
        let size = if max < left { max } else { left };
        let chunk = slice_to_vec(slice_subrange(self.source.as_slice(), self.offset, self.offset + size));
        let ghost before = self@;
        self.offset = self.offset + size;
        assert(before =~= chunk@ + self@);
        chunk
    }

    /// Reads the stream to its end: all the bytes left, in order.
    pub fn read_all(&mut self) -> (r: Vec<u8>)
        ensures
            r@ == old(self)@,
            final(self)@.len() == 0,
    {
        let mut out: Vec<u8> = Vec::new();
        loop
            invariant
                old(self)@ == out@ + self@,
            decreases self@.len(),
        {
            let mut chunk = self.read(4096);
            if chunk.len() == 0 {
                assert(out@ =~= old(self)@);
                return out;
            }
            let ghost before = out@;
            let ghost read = chunk@;
            out.append(&mut chunk);
            assert(old(self)@ =~= out@ + self@) by {
                assert(out@ =~= before + read);
            }
        }
    }
}

} // verus!
