//! Entry stores: a layout and the bytes of the entries it describes.
use super::layout::{spec_layout, Layout, LayoutV};
use crate::bases::{in_bounds, read_u8_at, spec_u8_at};
use crate::error::Error;
use vstd::prelude::*;
use vstd::slice::{slice_subrange, slice_to_vec};

verus! {

/// A store whose entries all have the size of its layout and follow each other.
#[derive(Debug)]
pub struct PlainStore {
    layout: Layout,
    entry_data: Vec<u8>,
}

/// An entry store.
#[derive(Debug)]
pub enum EntryStore {
    Plain(PlainStore),
}

/// The mathematical content of an [EntryStore]: its layout and the bytes of its entries.
pub struct EntryStoreV {
    pub layout: LayoutV,
    pub data: Seq<u8>,
}

impl View for PlainStore {
    type V = EntryStoreV;

    closed spec fn view(&self) -> EntryStoreV {
        EntryStoreV { layout: self.layout@, data: self.entry_data@ }
    }
}

impl View for EntryStore {
    type V = EntryStoreV;

    open spec fn view(&self) -> EntryStoreV {
        match self {
            EntryStore::Plain(p) => p@,
        }
    }
}

/// The index of the entry `i` places after entry `offset`.
pub open spec fn entry_at(offset: u32, i: u32) -> u32 {
    (offset + i) as u32
}

/// Whether the bytes hold all the entries that the layout counts.
pub open spec fn entries_fit(v: EntryStoreV) -> bool {
    v.layout.entry_count * v.layout.entry_size <= v.data.len()
}

/// The bytes of entry `idx`, if the store has such an entry.
pub open spec fn spec_entry(v: EntryStoreV, idx: u32) -> Option<Seq<u8>> {
    if idx < v.layout.entry_count {
        let start = idx * v.layout.entry_size;
        Some(v.data.subrange(start, start + v.layout.entry_size))
    } else {
        None
    }
}

proof fn lemma_entry_in_bounds(count: u32, size: u16, idx: u32)
    requires
        idx < count,
    ensures
        idx * size + size <= count * size,
{
    assert(idx * size + size <= count * size) by (nonlinear_arith)
        requires
            idx < count,
            size >= 0,
    ;
}

proof fn lemma_mul_small(a: u64, b: u64)
    requires
        a <= 0xFFFF_FFFF,
        b <= 0x1_0003,
    ensures
        a * b <= 0xFFFF_FFFF * 0x1_0003,
{
    assert(a * b <= 0xFFFF_FFFF * 0x1_0003) by (nonlinear_arith)
        requires
            a <= 0xFFFF_FFFF,
            b <= 0x1_0003,
    ;
}

impl PlainStore {
    #[verifier::type_invariant]
    closed spec fn fits(&self) -> bool {
        entries_fit(self@)
    }

    /// A store of the entries described by `layout` whose bytes are `entry_data`.
    pub fn new(layout: Layout, entry_data: Vec<u8>) -> (r: PlainStore)
        requires
            layout@.entry_count * layout@.entry_size <= entry_data@.len(),
        ensures
            r@ == (EntryStoreV { layout: layout@, data: entry_data@ }),
    {
        PlainStore { layout, entry_data }
    }

    /// The bytes of entry `idx`, if the store has such an entry.
    pub fn get_entry_reader(&self, idx: u32) -> (r: Option<&[u8]>)
        ensures
            match spec_entry(self@, idx) {
                None => r is None,
                Some(e) => (r matches Some(b) && b@ == e),
            },
            r matches Some(b) ==> b@.len() == self@.layout.entry_size,
    {
        proof {
            use_type_invariant(self);
        }
        let dlen = self.entry_data.len();
        if idx < self.layout.entry_count {
            let size = self.layout.entry_size as usize;
            proof {
                lemma_entry_in_bounds(self.layout.entry_count, self.layout.entry_size, idx);
                lemma_mul_small(idx as u64, self.layout.entry_size as u64);
                assert(idx * self.layout.entry_size + self.layout.entry_size <= self.entry_data@.len());
            }
            let start = (idx as u64 * self.layout.entry_size as u64) as usize;
            Some(slice_subrange(self.entry_data.as_slice(), start, start + size))
        } else {
            None
        }
    }

    /// The layout of the entries.
    pub fn layout(&self) -> (r: &Layout)
        ensures
            r@ == self@.layout,
    {
        &self.layout
    }
}

impl EntryStore {
    /// The bytes of entry `idx`, if the store has such an entry.
    pub fn get_entry_reader(&self, idx: u32) -> (r: Option<&[u8]>)
        ensures
            match spec_entry(self@, idx) {
                None => r is None,
                Some(e) => (r matches Some(b) && b@ == e),
            },
            r matches Some(b) ==> b@.len() == self@.layout.entry_size,
    {
        match self {
            EntryStore::Plain(store) => store.get_entry_reader(idx),
        }
    }

    /// The layout of the entries.
    pub fn layout(&self) -> (r: &Layout)
        ensures
            r@ == self@.layout,
    {
        match self {
            EntryStore::Plain(store) => store.layout(),
        }
    }
}

/// The kind of an entry store, from its first header byte: only plain stores are read.
pub open spec fn spec_store_kind(s: Seq<u8>, pos: int) -> Result<(), Error> {
    match spec_u8_at(s, pos) {
        Err(e) => Err(e),
        Ok(k) => if k == 0 {
            Ok(())
        } else {
            Err(Error::InvalidFormat)
        },
    }
}

/// The entry store whose header lies in the `header_size` bytes at `header_offset` of `s`.
///
/// The header holds the store kind and the layout. The entries lie just before the
/// header: when the entries are checked one by one, each is followed by a 4-byte
/// checksum; otherwise the whole is followed by one 4-byte checksum.
pub open spec fn spec_entry_store(s: Seq<u8>, header_offset: int, header_size: int) -> Result<EntryStoreV, Error> {
    if !in_bounds(s, header_offset, header_size) {
        Err(Error::UnexpectedEnd)
    } else {
        let h = s.subrange(header_offset, header_offset + header_size);
        match spec_store_kind(h, 0) {
            Err(e) => Err(e),
            Ok(_) => match spec_layout(h, 1) {
                Err(e) => Err(e),
                Ok((layout, _end)) => {
                    let count = layout.entry_count as int;
                    let size = layout.entry_size as int;
                    let (data_size, start) = if layout.is_entry_checked {
                        (count * (size + 4), header_offset - count * (size + 4))
                    } else {
                        (count * size, header_offset - count * size - 4)
                    };
                    if start < 0 {
                        Err(Error::InvalidFormat)
                    } else {
                        Ok(EntryStoreV { layout, data: s.subrange(start, start + data_size) })
                    }
                },
            },
        }
    }
}

impl EntryStore {
    /// Reads the entry store whose header lies in the `header_size` bytes at `header_offset`.
    pub fn parse(buf: &[u8], header_offset: usize, header_size: usize) -> (r: Result<EntryStore, Error>)
        ensures
            match spec_entry_store(buf@, header_offset as int, header_size as int) {
                Ok(v) => (r matches Ok(st) && st@ == v),
                Err(e) => r == Err::<EntryStore, Error>(e),
            },
    {
        let blen = buf.len();
        if !(header_size <= blen && header_offset <= blen - header_size) {
            return Err(Error::UnexpectedEnd);
        }
        let header = slice_subrange(buf, header_offset, header_offset + header_size);
        let kind = match read_u8_at(header, 0) {
            Ok(k) => k,
            Err(e) => return Err(e),
        };
        if kind != 0 {
            return Err(Error::InvalidFormat);
        }
        let (layout, _end) = match Layout::parse(header, 1) {
            Ok(x) => x,
            Err(e) => return Err(e),
        };
        let count = layout.entry_count as u64;
        let size = layout.entry_size as u64;
        proof {
            lemma_mul_small(count, size);
            lemma_mul_small(count, (size + 4) as u64);
        }
        let (data_size, back) = if layout.is_entry_checked {
            (count * (size + 4), count * (size + 4))
        } else {
            (count * size, count * size + 4)
        };
        if (header_offset as u64) < back {
            return Err(Error::InvalidFormat);
        }
        let start = header_offset - back as usize;
        proof {
            assert(count * size <= data_size) by (nonlinear_arith)
                requires
                    data_size == count * size || data_size == count * (size + 4),
                    count >= 0,
                    size >= 0,
            ;
        }
        let entry_data = slice_to_vec(slice_subrange(buf, start, start + data_size as usize));
        Ok(EntryStore::Plain(PlainStore { layout, entry_data }))
    }
}

/// The entries of a store lie one after the other from the start of its bytes, all of
/// the entry size: entry 0 starts the bytes, and entry `idx + 1` follows entry `idx`.
pub proof fn lemma_entries_follow(v: EntryStoreV, idx: u32)
    requires
        entries_fit(v),
        idx + 1 < v.layout.entry_count,
    ensures
        spec_entry(v, 0) == Some(v.data.take(v.layout.entry_size as int)),
        spec_entry(v, idx) matches Some(a) && spec_entry(v, (idx + 1) as u32) matches Some(b) && a.len()
            == v.layout.entry_size && b.len() == v.layout.entry_size && a + b == v.data.subrange(
            idx * v.layout.entry_size,
            idx * v.layout.entry_size + 2 * v.layout.entry_size,
        ),
{
    let size = v.layout.entry_size as int;
    let count = v.layout.entry_count as int;
    let i = idx as int;
    assert((i + 1) * size == i * size + size && (i + 2) * size == i * size + 2 * size && (i + 2) * size <= count * size
        && 0 <= i * size) by (nonlinear_arith)
        requires
            i + 1 < count,
            size >= 0,
            i >= 0,
    ;
    assert(v.data.subrange(0, size) =~= v.data.take(size));
    assert(v.data.subrange(i * size, i * size + size) + v.data.subrange(i * size + size, i * size + 2 * size)
        =~= v.data.subrange(i * size, i * size + 2 * size));
}

} // verus!
