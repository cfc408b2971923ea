//! A region of a source, sharing the source.
use super::byte_slice::ByteSlice;
use super::byte_stream::{share_bytes, ByteStream};
use crate::error::Error;
use std::sync::Arc;
use vstd::prelude::*;
use vstd::slice::slice_subrange;

verus! {

/// A region of a source, holding a share of the source.
#[derive(Debug)]
pub struct ByteRegion {
    source: Arc<Vec<u8>>,
    begin: usize,
    end: usize,
}

impl View for ByteRegion {
    type V = Seq<u8>;

    closed spec fn view(&self) -> Seq<u8> {
        self.source@.subrange(self.begin as int, self.end as int)
    }
}

impl ByteRegion {
    #[verifier::type_invariant]
    closed spec fn in_source(&self) -> bool {
        self.begin <= self.end <= self.source@.len()
    }

    /// The region of all the bytes of `source`.
    pub fn new(source: Arc<Vec<u8>>) -> (r: ByteRegion)
        ensures
            r@ == source@,
    {
        let end = source.len();
        let r = ByteRegion { source, begin: 0, end };
        assert(r@ =~= r.source@);
        r
    }

    /// The region of `source` from `begin` to `end` (excluded).
    pub fn new_from_parts(source: Arc<Vec<u8>>, begin: usize, end: usize) -> (r: ByteRegion)
        requires
            begin <= end <= source@.len(),
        ensures
            r@ == source@.subrange(begin as int, end as int),
    {
        ByteRegion { source, begin, end }
    }

    /// The region that a borrowed region describes, sharing its source.
    pub fn from_slice(slice: &ByteSlice<'_>, source: &Arc<Vec<u8>>) -> (r: ByteRegion)
        requires
            slice.spec_source() == source@,
        ensures
            r@ == slice@,
    {
        let (begin, end) = slice.bounds_in_source();
        ByteRegion { source: share_bytes(source), begin, end }
    }

    /// The size of the region.
    pub fn size(&self) -> (r: u64)
        ensures
            r == self@.len(),
    {
        proof {
            use_type_invariant(self);
        }
        (self.end - self.begin) as u64
    }

    /// A stream over the bytes of the region.
    pub fn stream(&self) -> (r: ByteStream)
        ensures
            r@ == self@,
    {
        proof {
            use_type_invariant(self);
        }
        ByteStream::new_from_parts(share_bytes(&self.source), self.end, self.begin)
    }

    /// The region of `size` bytes at `offset` of this region.
    pub fn cut(&self, offset: u64, size: u64) -> (r: ByteSlice<'_>)
        requires
            offset + size <= self@.len(),
        ensures
            r@ == self@.subrange(offset as int, offset + size),
    {
        proof {
            use_type_invariant(self);
        }
        let begin = self.begin + offset as usize;
        let r = ByteSlice::new_from_parts(&self.source, begin, begin + size as usize);
        assert(r@ =~= self@.subrange(offset as int, offset + size));
        r
    }

    /// The region of `size` bytes at `offset` of this region, sharing the source.
    pub fn sub_region(&self, offset: u64, size: u64) -> (r: ByteRegion)
        requires
            offset + size <= self@.len(),
        ensures
            r@ == self@.subrange(offset as int, offset + size),
    {
        proof {
            use_type_invariant(self);
        }
        let begin = self.begin + offset as usize;
        let r = ByteRegion { source: share_bytes(&self.source), begin, end: begin + size as usize };
        assert(r@ =~= self@.subrange(offset as int, offset + size));
        r
    }

    /// Another handle on the same region, sharing the source.
    pub fn share(&self) -> (r: ByteRegion)
        ensures
            r@ == self@,
    {
        proof {
            use_type_invariant(self);
        }
        ByteRegion { source: share_bytes(&self.source), begin: self.begin, end: self.end }
    }

    /// A copy of the bytes of the region.
    pub fn to_vec(&self) -> (r: Vec<u8>)
        ensures
            r@ == self@,
    {
        proof {
            use_type_invariant(self);
        }
        let s = slice_subrange(self.source.as_slice(), self.begin, self.end);
        vstd::slice::slice_to_vec(s)
    }

    /// The whole region, borrowed.
    pub fn as_slice(&self) -> (r: ByteSlice<'_>)
        ensures
            r@ == self@,
    {
        proof {
            use_type_invariant(self);
        }
        ByteSlice::new_from_parts(&self.source, self.begin, self.end)
    }

    /// The `size` bytes at `offset` of the region.
    pub fn get_slice(&self, offset: u64, size: u64) -> (r: Result<&[u8], Error>)
        requires
            offset + size <= self@.len(),
        ensures
            r matches Ok(s) && s@ == self@.subrange(offset as int, offset + size),
    {
        proof {
            use_type_invariant(self);
        }
        let begin = self.begin + offset as usize;
        let s = slice_subrange(self.source.as_slice(), begin, begin + size as usize);
        assert(s@ =~= self@.subrange(offset as int, offset + size));
        Ok(s)
    }
}

/// A cut of `size` bytes at `offset` holds `size` bytes, and its slice from its start
/// over its whole size is the slice of the region at `offset`.
pub proof fn lemma_cut_then_slice(s: Seq<u8>, offset: int, size: int)
    requires
        0 <= offset,
        0 <= size,
        offset + size <= s.len(),
    ensures
        s.subrange(offset, offset + size).len() == size,
        s.subrange(offset, offset + size).subrange(0, size) == s.subrange(offset, offset + size),
{
    assert(s.subrange(offset, offset + size).subrange(0, size) =~= s.subrange(offset, offset + size));
}

/// Slices and cuts nest: the part at `o2` of the part at `o1` is the part at `o1 + o2`.
pub proof fn lemma_nested_parts(s: Seq<u8>, o1: int, s1: int, o2: int, s2: int)
    requires
        0 <= o1,
        0 <= s1,
        o1 + s1 <= s.len(),
        0 <= o2,
        0 <= s2,
        o2 + s2 <= s1,
    ensures
        s.subrange(o1, o1 + s1).subrange(o2, o2 + s2) == s.subrange(o1 + o2, o1 + o2 + s2),
{
    assert(s.subrange(o1, o1 + s1).subrange(o2, o2 + s2) =~= s.subrange(o1 + o2, o1 + o2 + s2));
}

} // verus!
