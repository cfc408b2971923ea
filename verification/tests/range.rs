use jubako::directory_pack::builder::BuilderTrait;
use jubako::directory_pack::finder::Finder;
use jubako::directory_pack::range::{CompareTrait, EntryRange, RangeTrait};
use jubako::directory_pack::raw_value::RawValue;
use jubako::Error;
use std::cmp::Ordering;
use std::rc::Rc;

/// An entry whose single property "foo" holds the entry index.
struct MockEntry {
    v: RawValue,
}

impl MockEntry {
    fn get_value(&self, name: &[u8]) -> Option<RawValue> {
        if name == b"foo" {
            Some(self.v.clone())
        } else {
            None
        }
    }
}

struct MockBuilder {}

impl BuilderTrait for MockBuilder {
    type Entry = MockEntry;

    // What the library's contracts speak of: the entry made for `idx` holds `idx`.
    fn builds(&self, idx: u32, r: Result<Option<MockEntry>, Error>) -> bool {
        matches!(r, Ok(Some(e)) if e.v == RawValue::U16(idx as u16))
    }

    fn create_entry(&self, idx: u32) -> Result<Option<MockEntry>, Error> {
        Ok(Some(MockEntry { v: RawValue::U16(idx as u16) }))
    }
}

/// Compares the entry index (the value of its entry) with a reference.
struct EntryCompare {
    reference: u32,
    ordered: bool,
}

impl CompareTrait for EntryCompare {
    // What the library's contracts speak of: the same as the executable methods.
    fn spec_ordered(&self) -> bool {
        self.ordered
    }

    fn comparison(&self, idx: u32) -> Result<Ordering, Error> {
        Ok(idx.cmp(&self.reference))
    }

    fn defined(&self, _idx: u32) -> bool {
        true
    }

    fn ordered(&self) -> bool {
        self.ordered
    }

    fn compare_entry(&self, idx: u32) -> Result<Ordering, Error> {
        Ok(idx.cmp(&self.reference))
    }
}

/// A comparison that fails on every entry.
struct FailingCompare {}

impl CompareTrait for FailingCompare {
    fn spec_ordered(&self) -> bool {
        false
    }

    fn comparison(&self, _idx: u32) -> Result<Ordering, Error> {
        Err(Error::InvalidFormat)
    }

    fn defined(&self, _idx: u32) -> bool {
        true
    }

    fn ordered(&self) -> bool {
        false
    }

    fn compare_entry(&self, _idx: u32) -> Result<Ordering, Error> {
        Err(Error::InvalidFormat)
    }
}

fn foo_of(entry: &MockEntry) -> u64 {
    entry.get_value(b"foo").unwrap().as_unsigned()
}

#[test]
fn range_test_finder() {
    let builder = MockBuilder {};
    let range = EntryRange::new_from_size(0, 10);
    for i in 0..10 {
        let entry = range.get_entry(&builder, i).unwrap().unwrap();
        assert_eq!(foo_of(&entry), i as u64);
    }
    assert!(range.get_entry(&builder, 10).unwrap().is_none());
}

#[test]
fn test_comparator_false() {
    let builder = MockBuilder {};
    let range = EntryRange::new_from_size(0, 10);
    for i in 0..10 {
        let comparator = EntryCompare { reference: i, ordered: false };
        let idx = range.find(&comparator).unwrap().unwrap();
        let entry = range.get_entry(&builder, idx).unwrap().unwrap();
        assert_eq!(foo_of(&entry), i as u64);
    }
    let comparator = EntryCompare { reference: 10, ordered: false };
    assert_eq!(range.find(&comparator).unwrap(), None);
}

#[test]
fn test_comparator_true() {
    let builder = MockBuilder {};
    let range = EntryRange::new_from_size(0, 10);
    for i in 0..10 {
        let comparator = EntryCompare { reference: i, ordered: true };
        let idx = range.find(&comparator).unwrap().unwrap();
        let entry = range.get_entry(&builder, idx).unwrap().unwrap();
        assert_eq!(foo_of(&entry), i as u64);
    }
    let comparator = EntryCompare { reference: 10, ordered: true };
    assert_eq!(range.find(&comparator).unwrap(), None);
}

#[test]
fn range_with_offset_finds_relative_position() {
    let range = EntryRange::new_from_size(5, 10);
    let comparator = EntryCompare { reference: 7, ordered: true };
    assert_eq!(range.find(&comparator).unwrap(), Some(2));
    let comparator = EntryCompare { reference: 7, ordered: false };
    assert_eq!(range.find(&comparator).unwrap(), Some(2));
    let comparator = EntryCompare { reference: 3, ordered: true };
    assert_eq!(range.find(&comparator).unwrap(), None);
}

#[test]
fn range_find_reports_errors() {
    let range = EntryRange::new_from_size(0, 3);
    assert_eq!(range.find(&FailingCompare {}), Err(Error::InvalidFormat));
    let empty = EntryRange::new_from_size(0, 0);
    assert_eq!(empty.find(&FailingCompare {}), Ok(None));
}

#[test]
fn range_reaches_the_last_entry_index() {
    let range = EntryRange::new_from_size(u32::MAX - 2, 3);
    assert_eq!(range.offset(), u32::MAX - 2);
    assert_eq!(range.count(), 3);
    let last = range.get_entry(&MockBuilder {}, 2).unwrap().unwrap();
    assert_eq!(last.v, RawValue::U16(u32::MAX as u16));
    assert!(range.get_entry(&MockBuilder {}, 3).unwrap().is_none());
    for ordered in [true, false] {
        let comparator = EntryCompare { reference: u32::MAX, ordered };
        assert_eq!(range.find(&comparator), Ok(Some(2)));
        let finder = Finder::new(Rc::new(MockBuilder {}), u32::MAX - 2, 3);
        assert_eq!(finder.find(&comparator), Ok(Some(2)));
    }
}

#[test]
fn finder_test_finder() {
    let builder = Rc::new(MockBuilder {});
    let finder = Finder::new(builder, 0, 10);
    for i in 0..10 {
        let entry = finder.get_entry(i).unwrap();
        assert_eq!(foo_of(&entry), i as u64);
    }
    for i in 0..10 {
        let comparator = EntryCompare { reference: i, ordered: false };
        let idx = finder.find(&comparator).unwrap().unwrap();
        let entry = finder.get_entry(idx).unwrap();
        assert_eq!(foo_of(&entry), i as u64);
    }
    let comparator = EntryCompare { reference: 10, ordered: false };
    assert_eq!(finder.find(&comparator).unwrap(), None);
    assert_eq!(finder.get_entry(10).err(), Some(Error::Arg));
}

/// Equal on entry `equal`, an error on entry `failing`, less before and greater after.
struct MixedCompare {
    equal: u32,
    failing: u32,
}

impl CompareTrait for MixedCompare {
    fn spec_ordered(&self) -> bool {
        false
    }

    fn comparison(&self, idx: u32) -> Result<Ordering, Error> {
        if idx == self.failing {
            Err(Error::UnexpectedEnd)
        } else {
            Ok(idx.cmp(&self.equal))
        }
    }

    fn defined(&self, _idx: u32) -> bool {
        true
    }

    fn ordered(&self) -> bool {
        false
    }

    fn compare_entry(&self, idx: u32) -> Result<Ordering, Error> {
        self.comparison(idx)
    }
}

#[test]
fn the_first_of_an_error_and_an_equal_entry_decides() {
    let builder = Rc::new(MockBuilder {});
    let finder = Finder::new(builder, 0, 10);
    let range = EntryRange::new_from_size(0, 10);
    let err_first = MixedCompare { equal: 5, failing: 2 };
    assert_eq!(finder.find(&err_first), Err(Error::UnexpectedEnd));
    assert_eq!(range.find(&err_first), Err(Error::UnexpectedEnd));
    let equal_first = MixedCompare { equal: 1, failing: 3 };
    assert_eq!(finder.find(&equal_first), Ok(Some(1)));
    assert_eq!(range.find(&equal_first), Ok(Some(1)));
}
