//! Finding entries in a range by looking at each of them in turn.
use super::builder::BuilderTrait;
use super::entry_store::entry_at;
use super::range::{all_defined, first_error, indexes_fit, scanned_unequal, CompareTrait};
use crate::error::Error;
use std::cmp::Ordering;
use std::rc::Rc;
use vstd::prelude::*;

verus! {

/// The entries `offset` to `offset + count` (excluded) that a builder makes.
pub struct Finder<B: BuilderTrait> {
    builder: Rc<B>,
    offset: u32,
    count: u32,
}

impl<B: BuilderTrait> Finder<B> {
    pub closed spec fn spec_builder(&self) -> B {
        *self.builder
    }

    pub closed spec fn spec_offset(&self) -> u32 {
        self.offset
    }

    pub closed spec fn spec_count(&self) -> u32 {
        self.count
    }

    /// The finder of the `count` entries from entry `offset` on.
    pub fn new(builder: Rc<B>, offset: u32, count: u32) -> (r: Finder<B>)
        ensures
            r.spec_builder() == *builder,
            r.spec_offset() == offset,
            r.spec_count() == count,
    {
        Finder { builder, offset, count }
    }

    /// The index of the first entry.
    pub fn offset(&self) -> (r: u32)
        ensures
            r == self.spec_offset(),
    {
        self.offset
    }

    /// The number of entries.
    pub fn count(&self) -> (r: u32)
        ensures
            r == self.spec_count(),
    {
        self.count
    }

    /// The builder of the entries.
    pub fn builder(&self) -> (r: &Rc<B>)
        ensures
            **r == self.spec_builder(),
    {
        &self.builder
    }

    /// Entry `id` of the range (counted from its start); an error past its end, or
    /// when the builder has no such entry. The entry index, `offset + id`, must fit a `u32`.
    pub fn get_entry(&self, id: u32) -> (r: Result<B::Entry, Error>)
        requires
            id < self.spec_count() ==> self.spec_offset() + id <= u32::MAX,
        ensures
            id >= self.spec_count() ==> r == Err::<B::Entry, Error>(Error::Arg),
            id < self.spec_count() ==> match r {
                Ok(e) => self.spec_builder().builds(entry_at(self.spec_offset(), id), Ok(Some(e))),
                Err(e) => self.spec_builder().builds(entry_at(self.spec_offset(), id), Ok(None)) && e == Error::Arg
                    || self.spec_builder().builds(entry_at(self.spec_offset(), id), Err(e)),
            },
    {
        if id < self.count {
            match self.builder.create_entry(self.offset + id) {
                Ok(Some(e)) => Ok(e),
                Ok(None) => Err(Error::Arg),
                Err(e) => Err(e),
            }
        } else {
            Err(Error::Arg)
        }
    }

    /// The position in the range of the first entry that compares equal to the
    /// reference; an entry that compares with an error stops the search with that error.
    /// Every entry index of the range must fit a `u32`.
    pub fn find<C: CompareTrait>(&self, comparator: &C) -> (r: Result<Option<u32>, Error>)
        requires
            indexes_fit(self.spec_offset(), self.spec_count()),
            all_defined(comparator, self.spec_offset(), self.spec_count()),
        ensures
            r matches Ok(Some(i)) ==> i < self.spec_count() && comparator.comparison(entry_at(self.spec_offset(), i))
                == Ok::<Ordering, Error>(Ordering::Equal) && scanned_unequal(comparator, self.spec_offset(), i),
            r matches Ok(None) ==> scanned_unequal(comparator, self.spec_offset(), self.spec_count()),
            r matches Err(e) ==> first_error(comparator, self.spec_offset(), self.spec_count(), e),
    {
        let count = self.count;
        let offset = self.offset;
        let mut idx: u32 = 0;
        while idx < count
            invariant
                count == self.spec_count(),
                offset == self.spec_offset(),
                indexes_fit(offset, count),
                idx <= count,
                all_defined(comparator, offset, count),
                scanned_unequal(comparator, offset, idx),
            decreases count - idx,
        {
            proof {
                assert(comparator.defined(entry_at(offset, idx)));
            }
            let c = match comparator.compare_entry(offset + idx) {
                Ok(c) => c,
                Err(e) => {
                    proof {
                        assert(comparator.comparison(entry_at(offset, idx)) == Err::<Ordering, Error>(e));
                        assert(first_error(comparator, offset, count, e));
                    }
                    return Err(e);
                },
            };
            match c {
                Ordering::Equal => {
                    return Ok(Some(idx));
                },
                _ => {},
            }
            proof {
                assert(comparator.comparison(entry_at(offset, idx)) == Ok::<Ordering, Error>(c));
                assert forall|j: u32| j < idx + 1 implies (#[trigger] comparator.comparison(entry_at(offset, j))) is Ok
                    && comparator.comparison(entry_at(offset, j)) != Ok::<Ordering, Error>(Ordering::Equal) by {
                    if j < idx {
                        assert(scanned_unequal(comparator, offset, idx));
                    }
                }
            }
            idx = idx + 1;
        }
        Ok(None)
    }
}

} // verus!
