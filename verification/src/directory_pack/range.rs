//! Ranges of entries, and the search of an entry in them.
use super::builder::BuilderTrait;
use super::entry_store::entry_at;
use crate::error::Error;
use std::cmp::Ordering;
use vstd::prelude::*;

verus! {

/// A comparison of the entries of a store with a reference.
pub trait CompareTrait {
    /// Whether the entries are sorted for this comparison, so that a range can be
    /// searched by halves.
    spec fn spec_ordered(&self) -> bool;

    /// What comparing entry `idx` with the reference gives.
    spec fn comparison(&self, idx: u32) -> Result<Ordering, Error>;

    /// Whether entry `idx` can be compared with the reference at all.
    spec fn defined(&self, idx: u32) -> bool;

    fn ordered(&self) -> (r: bool)
        ensures
            r == self.spec_ordered(),
    ;

    /// Compares entry `idx` with the reference.
    fn compare_entry(&self, idx: u32) -> (r: Result<Ordering, Error>)
        requires
            self.defined(idx),
        ensures
            r == self.comparison(idx),
    ;
}

/// The place of an ordering among the three: less, equal, greater.
pub open spec fn rank(o: Ordering) -> int {
    match o {
        Ordering::Less => 0,
        Ordering::Equal => 1,
        Ordering::Greater => 2,
    }
}

/// Whether the comparisons of the `count` entries from `offset` on never go down
/// (leaving aside the entries that compare with an error).
pub open spec fn sorted_over<C: CompareTrait>(c: &C, offset: u32, count: u32) -> bool {
    forall|i: u32, j: u32|
        #![trigger c.comparison(entry_at(offset, i)), c.comparison(entry_at(offset, j))]
        i <= j < count ==> match (c.comparison(entry_at(offset, i)), c.comparison(entry_at(offset, j))) {
            (Ok(a), Ok(b)) => rank(a) <= rank(b),
            _ => true,
        }
}

/// Whether no entry of the range compares equal to the reference.
pub open spec fn none_equal<C: CompareTrait>(c: &C, offset: u32, count: u32) -> bool {
    forall|i: u32| i < count ==> #[trigger] c.comparison(entry_at(offset, i)) != Ok::<Ordering, Error>(Ordering::Equal)
}

/// Whether some entry of the range compares with the error `e`.
pub open spec fn some_error<C: CompareTrait>(c: &C, offset: u32, count: u32, e: Error) -> bool {
    exists|i: u32| i < count && #[trigger] c.comparison(entry_at(offset, i)) == Err::<Ordering, Error>(e)
}

/// Whether every entry of the range can be compared with the reference.
pub open spec fn all_defined<C: CompareTrait>(c: &C, offset: u32, count: u32) -> bool {
    forall|i: u32| i < count ==> #[trigger] c.defined(entry_at(offset, i))
}

/// Whether the first `n` entries of the range all compare, and none of them equal.
pub open spec fn scanned_unequal<C: CompareTrait>(c: &C, offset: u32, n: u32) -> bool {
    forall|j: u32|
        j < n ==> (#[trigger] c.comparison(entry_at(offset, j))) is Ok && c.comparison(entry_at(offset, j))
            != Ok::<Ordering, Error>(Ordering::Equal)
}

/// Whether scanning the range in order meets the error `e` first: an entry compares
/// with `e` and all the entries before it compare, unequal.
pub open spec fn first_error<C: CompareTrait>(c: &C, offset: u32, count: u32, e: Error) -> bool {
    exists|i: u32|
        i < count && #[trigger] c.comparison(entry_at(offset, i)) == Err::<Ordering, Error>(e) && scanned_unequal(
            c,
            offset,
            i,
        )
}

/// Whether every entry index of the `count` entries from `offset` on fits a `u32`.
pub open spec fn indexes_fit(offset: u32, count: u32) -> bool {
    offset + count <= u32::MAX + 1
}

/// A range of consecutive entries of a store.
pub trait RangeTrait {
    spec fn spec_offset(&self) -> u32;

    spec fn spec_count(&self) -> u32;

    /// The index of the first entry.
    fn offset(&self) -> (r: u32)
        ensures
            r == self.spec_offset(),
    ;

    /// The number of entries.
    fn count(&self) -> (r: u32)
        ensures
            r == self.spec_count(),
    ;

    /// Entry `id` of the range (counted from its start); `None` past its end. The entry
    /// index, `offset + id`, must fit a `u32`.
    fn get_entry<B: BuilderTrait>(&self, builder: &B, id: u32) -> (r: Result<Option<B::Entry>, Error>)
        requires
            id < self.spec_count() ==> self.spec_offset() + id <= u32::MAX,
        ensures
            id >= self.spec_count() ==> r matches Ok(None),
            id < self.spec_count() ==> builder.builds(entry_at(self.spec_offset(), id), r),
    {
        let count = self.count();
        if id < count {
            let offset = self.offset();
            builder.create_entry(offset + id)
        } else {
            Ok(None)
        }
    }

    /// The position in the range of an entry that compares equal to the reference.
    ///
    /// With an ordered comparison the range is searched by halves, else entry by
    /// entry. An entry that compares with an error stops the search with that error.
    /// Every entry index of the range must fit a `u32`.
    fn find<C: CompareTrait>(&self, comparator: &C) -> (r: Result<Option<u32>, Error>)
        requires
            indexes_fit(self.spec_offset(), self.spec_count()),
            all_defined(comparator, self.spec_offset(), self.spec_count()),
        ensures
            r matches Ok(Some(i)) ==> i < self.spec_count() && comparator.comparison(entry_at(self.spec_offset(), i))
                == Ok::<Ordering, Error>(Ordering::Equal),
            r matches Ok(None) && (!comparator.spec_ordered() || sorted_over(comparator, self.spec_offset(), self.spec_count()))
                ==> none_equal(comparator, self.spec_offset(), self.spec_count()),
            r matches Err(e) ==> some_error(comparator, self.spec_offset(), self.spec_count(), e),
            !comparator.spec_ordered() ==> match r {
                Ok(Some(i)) => scanned_unequal(comparator, self.spec_offset(), i),
                Ok(None) => scanned_unequal(comparator, self.spec_offset(), self.spec_count()),
                Err(e) => first_error(comparator, self.spec_offset(), self.spec_count(), e),
            },
    {
        let count = self.count();
        let offset = self.offset();
        if comparator.ordered() {
            let mut left: u32 = 0;
            let mut right: u32 = count;
            while left < right
                invariant
                    count == self.spec_count(),
                    offset == self.spec_offset(),
                    indexes_fit(offset, count),
                    left <= right <= count,
                    comparator.spec_ordered(),
                    all_defined(comparator, offset, count),
                    sorted_over(comparator, offset, count) ==> forall|i: u32|
                        (i < left || right <= i < count) ==> #[trigger] comparator.comparison(entry_at(offset, i))
                            != Ok::<Ordering, Error>(Ordering::Equal),
                decreases right - left,
            {
                let mid = left + (right - left) / 2;
                proof {
                    assert(comparator.defined(entry_at(offset, mid)));
                }
                let c = match comparator.compare_entry(offset + mid) {
                    Ok(c) => c,
                    Err(e) => {
                        proof {
                            assert(comparator.comparison(entry_at(offset, mid)) == Err::<Ordering, Error>(e));
                        }
                        return Err(e);
                    },
                };
                proof {
                    assert(comparator.comparison(entry_at(offset, mid)) == Ok::<Ordering, Error>(c));
                }
                match c {
                    Ordering::Less => {
                        proof {
                            assert forall|i: u32| (i < mid + 1 || right <= i < count) && sorted_over(comparator, offset, count) implies
                                #[trigger] comparator.comparison(entry_at(offset, i)) != Ok::<Ordering, Error>(
                                Ordering::Equal,
                            ) by {
                                if left <= i <= mid {
                                    assert(rank(Ordering::Equal) > rank(c));
                                }
                            }
                        }
                        left = mid + 1;
                    },
                    Ordering::Greater => {
                        proof {
                            assert forall|i: u32| (i < left || mid <= i < count) && sorted_over(comparator, offset, count) implies
                                #[trigger] comparator.comparison(entry_at(offset, i)) != Ok::<Ordering, Error>(
                                Ordering::Equal,
                            ) by {
                                if mid <= i < right {
                                    assert(rank(Ordering::Equal) < rank(c));
                                }
                            }
                        }
                        right = mid;
                    },
                    Ordering::Equal => {
                        return Ok(Some(mid));
                    },
                }
            }
            Ok(None)
        } else {
            let mut idx: u32 = 0;
            while idx < count
                invariant
                    count == self.spec_count(),
                    offset == self.spec_offset(),
                    indexes_fit(offset, count),
                    idx <= count,
                    !comparator.spec_ordered(),
                    all_defined(comparator, offset, count),
                    scanned_unequal(comparator, offset, idx),
                    forall|i: u32| i < idx ==> #[trigger] comparator.comparison(entry_at(offset, i))
                        != Ok::<Ordering, Error>(Ordering::Equal),
                decreases count - idx,
            {
                proof {
                    assert(comparator.defined(entry_at(offset, idx)));
                }
                let c = match comparator.compare_entry(offset + idx) {
                    Ok(c) => c,
                    Err(e) => {
                        proof {
                            assert(comparator.comparison(entry_at(offset, idx)) == Err::<Ordering, Error>(e));
                            assert(first_error(comparator, offset, count, e));
                        }
                        return Err(e);
                    },
                };
                match c {
                    Ordering::Equal => {
                        return Ok(Some(idx));
                    },
                    _ => {},
                }
                proof {
                    assert(comparator.comparison(entry_at(offset, idx)) == Ok::<Ordering, Error>(c));
                    assert forall|j: u32| j < idx + 1 implies (#[trigger] comparator.comparison(entry_at(offset, j))) is Ok
                        && comparator.comparison(entry_at(offset, j)) != Ok::<Ordering, Error>(Ordering::Equal) by {
                        if j < idx {
                            assert(scanned_unequal(comparator, offset, idx));
                        }
                    }
                }
                idx = idx + 1;
            }
            Ok(None)
        }
    }
}

/// The range of `count` entries from entry `offset` on.
#[derive(Debug, Clone, Copy, PartialEq, Eq, Structural)]
pub struct EntryRange {
    offset: u32,
    count: u32,
}

impl EntryRange {
    /// The range of `count` entries from entry `offset` on.
    pub fn new_from_size(offset: u32, count: u32) -> (r: EntryRange)
        ensures
            r.spec_offset() == offset,
            r.spec_count() == count,
    {
        EntryRange { offset, count }
    }
}

impl RangeTrait for EntryRange {
    closed spec fn spec_offset(&self) -> u32 {
        self.offset
    }

    closed spec fn spec_count(&self) -> u32 {
        self.count
    }

    fn offset(&self) -> (r: u32) {
        self.offset
    }

    fn count(&self) -> (r: u32) {
        self.count
    }
}

} // verus!
