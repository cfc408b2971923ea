//! Indexes: named ranges of the entries of an entry store.
use super::range::RangeTrait;
use crate::bases::{is_utf8, valid_utf8, read_pstring_at, read_u8_at, read_uint_at, spec_pstring_at, spec_u8_at, spec_uint_at};
use crate::error::Error;
use vstd::prelude::*;

verus! {

/// The header of an index: the entry store it ranges over, the range, free data, the
/// property it is sorted by and its name.
#[derive(Debug, Clone, PartialEq, Eq)]
pub struct IndexHeader {
    pub store_id: u32,
    pub entry_count: u32,
    pub entry_offset: u32,
    pub free_data: [u8; 4],
    pub index_property: u8,
    pub name: Vec<u8>,
}

/// The mathematical content of an [IndexHeader].
pub struct IndexHeaderV {
    pub store_id: u32,
    pub entry_count: u32,
    pub entry_offset: u32,
    pub free_data: Seq<u8>,
    pub index_property: u8,
    pub name: Seq<u8>,
}

impl View for IndexHeader {
    type V = IndexHeaderV;

    open spec fn view(&self) -> IndexHeaderV {
        IndexHeaderV {
            store_id: self.store_id,
            entry_count: self.entry_count,
            entry_offset: self.entry_offset,
            free_data: self.free_data@,
            index_property: self.index_property,
            name: self.name@,
        }
    }
}

/// The index header stored at `pos` and the position after it: three little-endian
/// 4-byte integers (store, count, offset), 4 bytes of free data, the property byte and
/// the name as a length-prefixed UTF-8 string.
pub open spec fn spec_index_header(s: Seq<u8>, pos: int) -> Result<(IndexHeaderV, int), Error> {
    match spec_uint_at(s, pos, 4) {
        Err(e) => Err(e),
        Ok(store_id) => match spec_uint_at(s, pos + 4, 4) {
            Err(e) => Err(e),
            Ok(count) => match spec_uint_at(s, pos + 8, 4) {
                Err(e) => Err(e),
                Ok(offset) => if !(pos + 16 <= s.len()) {
                    Err(Error::UnexpectedEnd)
                } else {
                    match spec_u8_at(s, pos + 16) {
                        Err(e) => Err(e),
                        Ok(prop) => match spec_pstring_at(s, pos + 17) {
                            Err(e) => Err(e),
                            Ok((name, end)) => if !is_utf8(name) {
                                Err(Error::InvalidFormat)
                            } else {
                                Ok(
                                    (
                                        IndexHeaderV {
                                            store_id: store_id as u32,
                                            entry_count: count as u32,
                                            entry_offset: offset as u32,
                                            free_data: s.subrange(pos + 12, pos + 16),
                                            index_property: prop,
                                            name,
                                        },
                                        end,
                                    ),
                                )
                            },
                        },
                    }
                },
            },
        },
    }
}

impl IndexHeader {
    /// Parses the index header at `pos`; returns it with the position after it.
    pub fn produce(buf: &[u8], pos: usize) -> (r: Result<(IndexHeader, usize), Error>)
        ensures
            match spec_index_header(buf@, pos as int) {
                Ok((h, end)) => (r matches Ok((rh, re)) && rh@ == h && re == end),
                Err(e) => r == Err::<(IndexHeader, usize), Error>(e),
            },
    {
        let blen = buf.len();
        let store_id = read_uint_at(buf, pos, 4)?;
        let entry_count = read_uint_at(buf, pos + 4, 4)?;
        let entry_offset = read_uint_at(buf, pos + 8, 4)?;
        proof {
            crate::bases::lemma_le_at_bound(buf@, pos as int, 4);
            crate::bases::lemma_le_at_bound(buf@, pos + 4, 4);
            crate::bases::lemma_le_at_bound(buf@, pos + 8, 4);
            crate::ints::lemma_pow256_values();
        }
        let q = pos + 12;
        if blen - q < 4 {
            return Err(Error::UnexpectedEnd);
        }
        let free_data: [u8; 4] = [buf[q], buf[q + 1], buf[q + 2], buf[q + 3]];
        let index_property = read_u8_at(buf, pos + 16)?;
        let (name, end) = read_pstring_at(buf, pos + 17)?;
        if !valid_utf8(name.as_slice()) {
            return Err(Error::InvalidFormat);
        }
        assert(free_data@ =~= buf@.subrange(pos + 12, pos + 16));
        Ok(
            (
                IndexHeader {
                    store_id: store_id as u32,
                    entry_count: entry_count as u32,
                    entry_offset: entry_offset as u32,
                    free_data,
                    index_property,
                    name,
                },
                end,
            ),
        )
    }
}

/// An index.
#[derive(Debug)]
pub struct Index {
    header: IndexHeader,
}

impl View for Index {
    type V = IndexHeaderV;

    closed spec fn view(&self) -> IndexHeaderV {
        self.header@
    }
}

impl Index {
    /// The index of header `header`.
    pub fn new(header: IndexHeader) -> (r: Index)
        ensures
            r@ == header@,
    {
        Index { header }
    }

    /// The entry store that the index ranges over.
    pub fn get_store_id(&self) -> (r: u32)
        ensures
            r == self@.store_id,
    {
        self.header.store_id
    }

    /// The number of entries of the index.
    pub fn size(&self) -> (r: u32)
        ensures
            r == self@.entry_count,
    {
        self.header.entry_count
    }

    /// Whether the index has no entry.
    pub fn is_empty(&self) -> (r: bool)
        ensures
            r == (self@.entry_count == 0),
    {
        self.header.entry_count == 0
    }
}

impl RangeTrait for Index {
    open spec fn spec_offset(&self) -> u32 {
        self@.entry_offset
    }

    open spec fn spec_count(&self) -> u32 {
        self@.entry_count
    }

    fn offset(&self) -> (r: u32) {
        self.header.entry_offset
    }

    fn count(&self) -> (r: u32) {
        self.header.entry_count
    }
}

} // verus!
