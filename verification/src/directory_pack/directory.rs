//! Directory packs: the indexes, entry stores and value stores of a container.
use super::entry_store::{spec_entry_store, EntryStore, EntryStoreV};
use super::index::{spec_index_header, Index, IndexHeader, IndexHeaderV};
use super::value_store::{spec_value_store, ValueStore, ValueStoreV};
use crate::assoc::bytes_eq;
use crate::bases::{in_bounds, read_uint_at, read_uint_at_sum, spec_uint_at};
use crate::error::Error;
use crate::pack::{blake3_hash, spec_check_info, CheckInfo, PackKind};
use crate::reader::pack_base::{spec_pack_base, PackBase, PackBaseV};
use std::sync::Arc;
use vstd::prelude::*;
use vstd::slice::{slice_subrange, slice_to_vec};

verus! {

/// The mathematical content of a [DirectoryPack].
pub struct DirectoryPackV {
    pub pack: PackBaseV,
    pub index_ptr_pos: u64,
    pub entry_store_ptr_pos: u64,
    pub value_store_ptr_pos: u64,
    pub index_count: u32,
    pub entry_store_count: u32,
    pub value_store_count: u8,
    pub free_data: Seq<u8>,
    pub data: Seq<u8>,
}

/// The directory pack of bytes `s`: the pack header (of a directory pack), then at byte
/// 64 the positions of the index, entry store and value store pointer arrays (8 bytes
/// each), the index count, the entry store count (4 bytes each), the value store count
/// (1 byte), 24 bytes of free data and padding, up to byte 128.
pub open spec fn spec_directory_pack(s: Seq<u8>) -> Result<DirectoryPackV, Error> {
    match spec_pack_base(s) {
        Err(e) => Err(e),
        Ok(p) => if p.magic != PackKind::Directory {
            Err(Error::InvalidFormat)
        } else if !in_bounds(s, 64, 64) {
            Err(Error::UnexpectedEnd)
        } else {
            Ok(
                DirectoryPackV {
                    pack: p,
                    index_ptr_pos: spec_uint_at(s, 64, 8).unwrap(),
                    entry_store_ptr_pos: spec_uint_at(s, 72, 8).unwrap(),
                    value_store_ptr_pos: spec_uint_at(s, 80, 8).unwrap(),
                    index_count: spec_uint_at(s, 88, 4).unwrap() as u32,
                    entry_store_count: spec_uint_at(s, 92, 4).unwrap() as u32,
                    value_store_count: s[96],
                    free_data: s.subrange(97, 121),
                    data: s,
                },
            )
        },
    }
}

/// The pointer stored at `pos`: the size (2 bytes) and the position (6 bytes) of a block.
pub open spec fn spec_sized_offset(s: Seq<u8>, pos: int) -> Result<(u64, u64), Error> {
    match spec_uint_at(s, pos, 2) {
        Err(e) => Err(e),
        Ok(size) => match spec_uint_at(s, pos + 2, 6) {
            Err(e) => Err(e),
            Ok(offset) => Ok((size, offset)),
        },
    }
}

/// The header of index `id`: an error past the index count; the header is read within
/// the block that the index pointer gives.
pub open spec fn spec_index_at(v: DirectoryPackV, id: u32) -> Result<IndexHeaderV, Error> {
    if id >= v.index_count {
        Err(Error::Arg)
    } else {
        match spec_sized_offset(v.data, v.index_ptr_pos + 8 * id) {
            Err(e) => Err(e),
            Ok((size, offset)) => if !in_bounds(v.data, offset as int, size as int) {
                Err(Error::UnexpectedEnd)
            } else {
                match spec_index_header(v.data.subrange(offset as int, offset + size), 0) {
                    Err(e) => Err(e),
                    Ok((h, _)) => Ok(h),
                }
            },
        }
    }
}

/// The first index, from index `i` on, whose name is `name`; an error when there is
/// none, or when reading an index before it fails.
pub open spec fn spec_index_by_name(v: DirectoryPackV, name: Seq<u8>, i: int) -> Result<IndexHeaderV, Error>
    decreases v.index_count - i,
{
    if i < 0 || i >= v.index_count {
        Err(Error::Arg)
    } else {
        match spec_index_at(v, i as u32) {
            Err(e) => Err(e),
            Ok(h) => if h.name == name {
                Ok(h)
            } else {
                spec_index_by_name(v, name, i + 1)
            },
        }
    }
}

/// The value store `id`: an error past the value store count.
pub open spec fn spec_value_store_at(v: DirectoryPackV, id: u8) -> Result<ValueStoreV, Error> {
    if id >= v.value_store_count {
        Err(Error::Arg)
    } else {
        match spec_sized_offset(v.data, v.value_store_ptr_pos + 8 * id) {
            Err(e) => Err(e),
            Ok((size, offset)) => spec_value_store(v.data, offset as int, size as int),
        }
    }
}

/// The entry store `id`: an error past the entry store count.
pub open spec fn spec_entry_store_at(v: DirectoryPackV, id: u32) -> Result<EntryStoreV, Error> {
    if id >= v.entry_store_count {
        Err(Error::Arg)
    } else {
        match spec_sized_offset(v.data, v.entry_store_ptr_pos + 8 * id) {
            Err(e) => Err(e),
            Ok((size, offset)) => spec_entry_store(v.data, offset as int, size as int),
        }
    }
}

/// A directory pack.
#[derive(Debug)]
pub struct DirectoryPack {
    pack: PackBase,
    index_ptr_pos: u64,
    entry_store_ptr_pos: u64,
    value_store_ptr_pos: u64,
    index_count: u32,
    entry_store_count: u32,
    value_store_count: u8,
    free_data: Vec<u8>,
    data: Arc<Vec<u8>>,
}

impl View for DirectoryPack {
    type V = DirectoryPackV;

    closed spec fn view(&self) -> DirectoryPackV {
        DirectoryPackV {
            pack: self.pack@,
            index_ptr_pos: self.index_ptr_pos,
            entry_store_ptr_pos: self.entry_store_ptr_pos,
            value_store_ptr_pos: self.value_store_ptr_pos,
            index_count: self.index_count,
            entry_store_count: self.entry_store_count,
            value_store_count: self.value_store_count,
            free_data: self.free_data@,
            data: self.data@,
        }
    }
}

/// Reads the pointer at `base + extra`, returning the block size and position; the
/// position is refused (as past the end) when it lies past the bytes.
fn read_sized_offset(buf: &[u8], base: u64, extra: u64) -> (r: Result<(usize, usize), Error>)
    requires
        extra <= 0x8_0000_0000,
    ensures
        match spec_sized_offset(buf@, base + extra) {
            Err(e) => r == Err::<(usize, usize), Error>(e),
            Ok((size, offset)) => if offset > buf@.len() {
                r == Err::<(usize, usize), Error>(Error::UnexpectedEnd)
            } else {
                r matches Ok((rs, ro)) && rs == size && ro == offset
            },
        },
{
    let size = read_uint_at_sum(buf, base, extra, 2)?;
    proof {
        crate::bases::lemma_le_at_bound(buf@, base + extra, 2);
        crate::ints::lemma_pow256_values();
    }
    let offset = read_uint_at_sum(buf, base, extra + 2, 6)?;
    if offset > buf.len() as u64 {
        return Err(Error::UnexpectedEnd);
    }
    Ok((size as usize, offset as usize))
}

impl DirectoryPack {
    /// Reads the directory pack whose bytes are `data`.
    pub fn new(data: Arc<Vec<u8>>) -> (r: Result<DirectoryPack, Error>)
        ensures
            match spec_directory_pack(data@) {
                Ok(v) => (r matches Ok(p) && p@ == v),
                Err(e) => r == Err::<DirectoryPack, Error>(e),
            },
    {
        let buf = data.as_slice();
        let pack = PackBase::produce(buf)?;
        match pack.magic {
            PackKind::Directory => {},
            _ => return Err(Error::InvalidFormat),
        }
        if buf.len() < 128 {
            return Err(Error::UnexpectedEnd);
        }
        let index_ptr_pos = read_uint_at(buf, 64, 8)?;
        let entry_store_ptr_pos = read_uint_at(buf, 72, 8)?;
        let value_store_ptr_pos = read_uint_at(buf, 80, 8)?;
        let index_count = read_uint_at(buf, 88, 4)?;
        let entry_store_count = read_uint_at(buf, 92, 4)?;
        proof {
            crate::bases::lemma_le_at_bound(buf@, 88, 4);
            crate::bases::lemma_le_at_bound(buf@, 92, 4);
            crate::ints::lemma_pow256_values();
        }
        let value_store_count = buf[96];
        let free_data = slice_to_vec(slice_subrange(buf, 97, 121));
        Ok(
            DirectoryPack {
                pack,
                index_ptr_pos,
                entry_store_ptr_pos,
                value_store_ptr_pos,
                index_count: index_count as u32,
                entry_store_count: entry_store_count as u32,
                value_store_count,
                free_data,
                data,
            },
        )
    }

    /// The header of index `id`.
    fn get_index_header(&self, id: u32) -> (r: Result<IndexHeader, Error>)
        ensures
            match spec_index_at(self@, id) {
                Ok(h) => (r matches Ok(rh) && rh@ == h),
                Err(e) => r == Err::<IndexHeader, Error>(e),
            },
    {
        if id >= self.index_count {
            return Err(Error::Arg);
        }
        let buf = self.data.as_slice();
        let (size, offset) = read_sized_offset(buf, self.index_ptr_pos, 8 * id as u64)?;
        if size > buf.len() - offset {
            return Err(Error::UnexpectedEnd);
        }
        let block = slice_subrange(buf, offset, offset + size);
        let ghost v = self@;
        proof {
            assert(spec_sized_offset(v.data, v.index_ptr_pos + 8 * id) == Ok::<(u64, u64), Error>((size as u64, offset as u64)));
            assert(block@ == v.data.subrange(offset as int, offset + size));
        }
        let res = IndexHeader::produce(block, 0);
        let (header, _end) = match res {
            Ok(x) => x,
            Err(e) => {
                assert(spec_index_at(v, id) == Err::<IndexHeaderV, Error>(e));
                return Err(e);
            },
        };
        Ok(header)
    }

    /// The index `id`.
    pub fn get_index(&self, id: u32) -> (r: Result<Index, Error>)
        ensures
            match spec_index_at(self@, id) {
                Ok(h) => (r matches Ok(i) && i@ == h),
                Err(e) => r matches Err(re) && re == e,
            },
    {
        let header = self.get_index_header(id)?;
        Ok(Index::new(header))
    }

    /// The first index whose name is `name`.
    pub fn get_index_from_name(&self, name: &[u8]) -> (r: Result<Index, Error>)
        ensures
            match spec_index_by_name(self@, name@, 0) {
                Ok(h) => (r matches Ok(i) && i@ == h),
                Err(e) => r matches Err(re) && re == e,
            },
    {
        let n = self.index_count;
        let mut id: u32 = 0;
        while id < n
            invariant
                n == self@.index_count,
                id <= n,
                spec_index_by_name(self@, name@, 0) == spec_index_by_name(self@, name@, id as int),
            decreases n - id,
        {
            let header = self.get_index_header(id)?;
            if bytes_eq(header.name.as_slice(), name) {
                return Ok(Index::new(header));
            }
            id = id + 1;
        }
        Err(Error::Arg)
    }

    /// The value store `id`.
    pub fn get_value_store(&self, id: u8) -> (r: Result<ValueStore, Error>)
        ensures
            match spec_value_store_at(self@, id) {
                Ok(v) => (r matches Ok(s) && s@ == v),
                Err(e) => r matches Err(re) && re == e,
            },
    {
        if id >= self.value_store_count {
            return Err(Error::Arg);
        }
        let buf = self.data.as_slice();
        let (size, offset) = read_sized_offset(buf, self.value_store_ptr_pos, 8 * id as u64)?;
        proof {
            assert(spec_value_store_at(self@, id) == spec_value_store(buf@, offset as int, size as int));
        }
        ValueStore::parse(buf, offset, size)
    }

    /// The entry store `id`.
    pub fn get_entry_store(&self, id: u32) -> (r: Result<EntryStore, Error>)
        ensures
            match spec_entry_store_at(self@, id) {
                Ok(v) => (r matches Ok(s) && s@ == v),
                Err(e) => r matches Err(re) && re == e,
            },
    {
        if id >= self.entry_store_count {
            return Err(Error::Arg);
        }
        let buf = self.data.as_slice();
        let (size, offset) = read_sized_offset(buf, self.entry_store_ptr_pos, 8 * id as u64)?;
        proof {
            assert(spec_entry_store_at(self@, id) == spec_entry_store(buf@, offset as int, size as int));
        }
        EntryStore::parse(buf, offset, size)
    }

    /// The position of the index pointer array.
    pub fn index_ptr_pos(&self) -> (r: u64)
        ensures
            r == self@.index_ptr_pos,
    {
        self.index_ptr_pos
    }

    /// The position of the entry store pointer array.
    pub fn entry_store_ptr_pos(&self) -> (r: u64)
        ensures
            r == self@.entry_store_ptr_pos,
    {
        self.entry_store_ptr_pos
    }

    /// The position of the value store pointer array.
    pub fn value_store_ptr_pos(&self) -> (r: u64)
        ensures
            r == self@.value_store_ptr_pos,
    {
        self.value_store_ptr_pos
    }

    /// The number of indexes.
    pub fn index_count(&self) -> (r: u32)
        ensures
            r == self@.index_count,
    {
        self.index_count
    }

    /// The number of value stores.
    pub fn value_store_count(&self) -> (r: u8)
        ensures
            r == self@.value_store_count,
    {
        self.value_store_count
    }

    /// The number of entry stores.
    pub fn entry_store_count(&self) -> (r: u32)
        ensures
            r == self@.entry_store_count,
    {
        self.entry_store_count
    }

    /// The free data of the pack.
    pub fn get_free_data(&self) -> (r: &[u8])
        ensures
            r@ == self@.free_data,
    {
        self.free_data.as_slice()
    }

    /// The header of the pack.
    pub fn pack_base(&self) -> (r: &PackBase)
        ensures
            r@ == self@.pack,
    {
        &self.pack
    }

    /// Whether the pack passes its check: the bytes before its check information hash
    /// to the stored hash.
    pub fn check(&self) -> (r: Result<bool, Error>)
        ensures
            match spec_check_info(self@.data, self@.pack.check_info_pos as int) {
                Err(e) => r == Err::<bool, Error>(e),
                Ok(None) => r == Ok::<bool, Error>(true),
                Ok(Some(h)) => r == Ok::<bool, Error>(
                    blake3_hash(self@.data.take(self@.pack.check_info_pos as int)) == h,
                ),
            },
    {
        let buf = self.data.as_slice();
        let pos = self.pack.check_info_pos;
        if pos >= buf.len() as u64 {
            return Err(Error::UnexpectedEnd);
        }
        let check_info = CheckInfo::produce(buf, pos as usize)?;
        let source = slice_subrange(buf, 0, pos as usize);
        proof {
            assert(source@ =~= self@.data.take(pos as int));
        }
        Ok(check_info.check(source))
    }
}

/// Value store `id` (below the value store count) is the one that entry `id` of the
/// value store pointer array describes: it lies at the position the entry holds and is
/// as long as the size it holds.
pub proof fn lemma_value_store_from_its_pointer(v: DirectoryPackV, id: u8)
    requires
        id < v.value_store_count,
        crate::bases::in_bounds(v.data, v.value_store_ptr_pos + 8 * id, 8),
    ensures
        spec_value_store_at(v, id) == spec_value_store(
            v.data,
            crate::bases::pointer_position(crate::bases::pointer_entry(v.data, v.value_store_ptr_pos as int, id as int)),
            crate::bases::pointer_size(crate::bases::pointer_entry(v.data, v.value_store_ptr_pos as int, id as int)),
        ),
{
    crate::bases::lemma_pointer_entry(v.data, v.value_store_ptr_pos as int, id as int);
}

/// Entry store `id` (below the entry store count) is the one that entry `id` of the
/// entry store pointer array describes: it lies at the position the entry holds and is
/// as long as the size it holds.
pub proof fn lemma_entry_store_from_its_pointer(v: DirectoryPackV, id: u32)
    requires
        id < v.entry_store_count,
        crate::bases::in_bounds(v.data, v.entry_store_ptr_pos + 8 * id, 8),
    ensures
        spec_entry_store_at(v, id) == spec_entry_store(
            v.data,
            crate::bases::pointer_position(crate::bases::pointer_entry(v.data, v.entry_store_ptr_pos as int, id as int)),
            crate::bases::pointer_size(crate::bases::pointer_entry(v.data, v.entry_store_ptr_pos as int, id as int)),
        ),
{
    crate::bases::lemma_pointer_entry(v.data, v.entry_store_ptr_pos as int, id as int);
}

/// Index `id` (below the index count) is read from the block that entry `id` of the
/// index pointer array describes, when that block lies within the pack.
pub proof fn lemma_index_from_its_pointer(v: DirectoryPackV, id: u32)
    requires
        id < v.index_count,
        crate::bases::in_bounds(v.data, v.index_ptr_pos + 8 * id, 8),
        crate::bases::in_bounds(
            v.data,
            crate::bases::pointer_position(crate::bases::pointer_entry(v.data, v.index_ptr_pos as int, id as int)),
            crate::bases::pointer_size(crate::bases::pointer_entry(v.data, v.index_ptr_pos as int, id as int)),
        ),
    ensures
        ({
            let e = crate::bases::pointer_entry(v.data, v.index_ptr_pos as int, id as int);
            let start = crate::bases::pointer_position(e);
            spec_index_at(v, id) == match spec_index_header(v.data.subrange(start, start + crate::bases::pointer_size(e)), 0) {
                Err(err) => Err(err),
                Ok((h, _)) => Ok(h),
            }
        }),
{
    crate::bases::lemma_pointer_entry(v.data, v.index_ptr_pos as int, id as int);
}

} // verus!
