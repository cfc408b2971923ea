//! Index stores: an entry description and the bytes of the entries it describes.
use super::layout::entry::{entry_variant, spec_old_entry, Entry, EntryV, VariantEntry, VariantEntryV};
use crate::bases::in_bounds;
use crate::error::Error;
use crate::primitive::{read_be_at, spec_be_at};
use vstd::prelude::*;
use vstd::slice::{slice_subrange, slice_to_vec};

verus! {

/// A store whose entries all have the size of its description and follow each other.
#[derive(Debug)]
pub struct PlainStore {
    pub entry_def: Entry,
    entry_data: Vec<u8>,
}

/// An index store.
#[derive(Debug)]
pub enum IndexStore {
    Plain(PlainStore),
}

/// The mathematical content of an [IndexStore].
pub struct IndexStoreV {
    pub entry_def: EntryV,
    pub data: Seq<u8>,
}

impl View for PlainStore {
    type V = IndexStoreV;

    closed spec fn view(&self) -> IndexStoreV {
        IndexStoreV { entry_def: self.entry_def@, data: self.entry_data@ }
    }
}

impl View for IndexStore {
    type V = IndexStoreV;

    open spec fn view(&self) -> IndexStoreV {
        match self {
            IndexStore::Plain(p) => p@,
        }
    }
}

/// The index store whose header lies in the `size` bytes at `offset` of `s`: the store
/// kind (only plain stores are read), the entry description and the data size on 8
/// bytes. The data lies just before the header.
pub open spec fn spec_index_store(s: Seq<u8>, offset: int, size: int) -> Result<IndexStoreV, Error> {
    if !in_bounds(s, offset, size) {
        Err(Error::UnexpectedEnd)
    } else {
        let h = s.subrange(offset, offset + size);
        if !in_bounds(h, 0, 1) {
            Err(Error::UnexpectedEnd)
        } else if h[0] != 0 {
            Err(Error::InvalidFormat)
        } else {
            match spec_old_entry(h, 1) {
                Err(e) => Err(e),
                Ok((def, p)) => match spec_be_at(h, p, 8) {
                    Err(e) => Err(e),
                    Ok(data_size) => if offset < data_size {
                        Err(Error::InvalidFormat)
                    } else {
                        Ok(IndexStoreV { entry_def: def, data: s.subrange(offset - data_size, offset) })
                    },
                },
            }
        }
    }
}

/// The bytes of entry `idx`: an error when they lie past the data.
pub open spec fn spec_index_entry(v: IndexStoreV, idx: u32) -> Result<Seq<u8>, Error> {
    let start = idx * v.entry_def.size;
    if start + v.entry_def.size > v.data.len() {
        Err(Error::UnexpectedEnd)
    } else {
        Ok(v.data.subrange(start, start + v.entry_def.size))
    }
}

/// A store of entries, found by index.
pub trait IndexStoreTrait {
    type Entry;

    /// Whether `r` is what getting entry `idx` gives.
    spec fn gives(&self, idx: u32, r: Result<Self::Entry, Error>) -> bool;

    /// The entry `idx`.
    fn get_entry(&self, idx: u32) -> (r: Result<Self::Entry, Error>)
        ensures
            self.gives(idx, r),
    ;
}

proof fn lemma_entry_bound(idx: u32, size: u64)
    ensures
        idx * size <= 0xFFFF_FFFF * size,
{
    assert(idx * size <= 0xFFFF_FFFF * size) by (nonlinear_arith)
        requires
            idx <= 0xFFFF_FFFF,
            size >= 0,
    ;
}

impl PlainStore {
    /// The entry `idx`.
    pub fn get_entry(&self, idx: u32) -> (r: Result<VariantEntry, Error>)
        ensures
            match spec_index_entry(self@, idx) {
                Err(e) => r == Err::<VariantEntry, Error>(e),
                Ok(bytes) => match entry_variant(self@.entry_def, bytes) {
                    Ok(i) => (r matches Ok(x) && x@ == (VariantEntryV {
                        variant_id: i,
                        properties: self@.entry_def.variants[i as int],
                        bytes,
                    })),
                    Err(er) => r matches Err(re) && re == er,
                },
            },
    {
        let size = self.entry_def.size;
        let len = self.entry_data.len();
        proof {
            lemma_entry_bound(idx, size);
        }
        let start = idx as u128 * size as u128;
        if start + size as u128 > len as u128 {
            return Err(Error::UnexpectedEnd);
        }
        let s = start as usize;
        let bytes = slice_subrange(self.entry_data.as_slice(), s, s + size as usize);
        self.entry_def.create_entry(bytes)
    }
}

impl IndexStore {
    /// Reads the index store whose header lies in the `size` bytes at `offset`.
    pub fn new(buf: &[u8], offset: usize, size: usize) -> (r: Result<IndexStore, Error>)
        ensures
            match spec_index_store(buf@, offset as int, size as int) {
                Ok(v) => (r matches Ok(st) && st@ == v),
                Err(e) => r matches Err(re) && re == e,
            },
    {
        let blen = buf.len();
        if !(size <= blen && offset <= blen - size) {
            return Err(Error::UnexpectedEnd);
        }
        let h = slice_subrange(buf, offset, offset + size);
        if h.len() < 1 {
            return Err(Error::UnexpectedEnd);
        }
        if h[0] != 0 {
            return Err(Error::InvalidFormat);
        }
        let (entry_def, p) = Entry::produce(h, 1)?;
        let data_size = read_be_at(h, p, 8)?;
        if (offset as u64) < data_size {
            return Err(Error::InvalidFormat);
        }
        let start = offset - data_size as usize;
        let entry_data = slice_to_vec(slice_subrange(buf, start, offset));
        Ok(IndexStore::Plain(PlainStore { entry_def, entry_data }))
    }
}

impl IndexStoreTrait for IndexStore {
    type Entry = VariantEntry;

    open spec fn gives(&self, idx: u32, r: Result<VariantEntry, Error>) -> bool {
        match spec_index_entry(self@, idx) {
            Err(e) => r == Err::<VariantEntry, Error>(e),
            Ok(bytes) => match entry_variant(self@.entry_def, bytes) {
                Ok(i) => (r matches Ok(x) && x@ == (VariantEntryV {
                    variant_id: i,
                    properties: self@.entry_def.variants[i as int],
                    bytes,
                })),
                Err(er) => r matches Err(re) && re == er,
            },
        }
    }

    fn get_entry(&self, idx: u32) -> (r: Result<VariantEntry, Error>) {
        match self {
            IndexStore::Plain(store) => store.get_entry(idx),
        }
    }
}

} // verus!
