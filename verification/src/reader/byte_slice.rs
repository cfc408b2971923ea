//! A region of a source, borrowed.
use super::byte_stream::{share_bytes, ByteStream};
use crate::error::Error;
use std::sync::Arc;
use vstd::prelude::*;
use vstd::slice::slice_subrange;

verus! {

/// A region of a source, borrowing the source.
#[derive(Debug)]
pub struct ByteSlice<'s> {
    source: &'s Arc<Vec<u8>>,
    begin: usize,
    end: usize,
}

impl<'s> View for ByteSlice<'s> {
    type V = Seq<u8>;

    closed spec fn view(&self) -> Seq<u8> {
        self.source@.subrange(self.begin as int, self.end as int)
    }
}

impl<'s> Clone for ByteSlice<'s> {
    fn clone(&self) -> (r: ByteSlice<'s>)
        ensures
            r@ == self@,
            r.spec_source() == self.spec_source(),
            r.spec_begin() == self.spec_begin(),
    {
        proof {
            use_type_invariant(self);
        }
        ByteSlice { source: self.source, begin: self.begin, end: self.end }
    }
}

impl<'s> ByteSlice<'s> {
    #[verifier::type_invariant]
    closed spec fn in_source(&self) -> bool {
        self.begin <= self.end <= self.source@.len()
    }

    /// The source the region lies in.
    pub closed spec fn spec_source(&self) -> Seq<u8> {
        self.source@
    }

    /// Where the region starts in its source.
    pub closed spec fn spec_begin(&self) -> nat {
        self.begin as nat
    }

    /// The region of `source` from `begin` to `end` (excluded).
    pub fn new_from_parts(source: &'s Arc<Vec<u8>>, begin: usize, end: usize) -> (r: ByteSlice<'s>)
        requires
            begin <= end <= source@.len(),
        ensures
            r@ == source@.subrange(begin as int, end as int),
            r.spec_source() == source@,
            r.spec_begin() == begin,
    {
        ByteSlice { source, begin, end }
    }

    /// Where the region starts and ends in its source.
    pub fn bounds_in_source(&self) -> (r: (usize, usize))
        ensures
            r.0 == self.spec_begin(),
            r.0 <= r.1 <= self.spec_source().len(),
            self@ == self.spec_source().subrange(r.0 as int, r.1 as int),
    {
        proof {
            use_type_invariant(self);
        }
        (self.begin, self.end)
    }

    /// The size of the region.
    pub fn size(&self) -> (r: u64)
        ensures
            r == self@.len(),
    {
        proof {
            use_type_invariant(self);
        }
        (self.end - self.begin) as u64
    }

    /// A stream over the bytes of the region.
    pub fn stream(&self) -> (r: ByteStream)
        ensures
            r@ == self@,
    {
        proof {
            use_type_invariant(self);
        }
        ByteStream::new_from_parts(share_bytes(self.source), self.end, self.begin)
    }

    /// The region of `size` bytes at `offset` of this region.
    pub fn cut(&self, offset: u64, size: u64) -> (r: ByteSlice<'s>)
        requires
            offset + size <= self@.len(),
        ensures
            r@ == self@.subrange(offset as int, offset + size),
            r.spec_source() == self.spec_source(),
            r.spec_begin() == self.spec_begin() + offset,
    {
        proof {
            use_type_invariant(self);
        }
        let off = offset as usize;
        let sz = size as usize;
        assert(off == offset && sz == size);
        let begin = self.begin + off;
        let r = ByteSlice { source: self.source, begin, end: begin + sz };
        assert(r@ =~= self@.subrange(offset as int, offset + size));
        r
    }

    /// The `size` bytes at `offset` of the region.
    pub fn get_slice(&self, offset: u64, size: u64) -> (r: Result<&'s [u8], Error>)
        requires
            offset + size <= self@.len(),
        ensures
            r matches Ok(s) && s@ == self@.subrange(offset as int, offset + size),
    {
        proof {
            use_type_invariant(self);
        }
        let begin = self.begin + offset as usize;
        let s = slice_subrange(self.source.as_slice(), begin, begin + size as usize);
        assert(s@ =~= self@.subrange(offset as int, offset + size));
        Ok(s)
    }
}

} // verus!
