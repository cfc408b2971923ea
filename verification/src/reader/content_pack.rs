//! Content packs: contents stored as blobs of clusters, found by content index.
use super::byte_region::ByteRegion;
use super::cluster::{spec_blob, spec_cluster, Cluster};
use super::pack_base::{spec_pack_base, PackBase, PackBaseV};
use crate::bases::{
    in_bounds, lemma_pointer_entry, pointer_entry, pointer_position, pointer_size, read_uint_at, read_uint_at_sum, spec_uint_at,
};
use crate::ints::le_value;
use crate::error::Error;
use crate::pack::{blake3_hash, spec_check_info, CheckInfo, PackKind};
use std::sync::Arc;
use vstd::prelude::*;
use vstd::slice::{slice_subrange, slice_to_vec};

verus! {

/// The mathematical content of a [ContentPack].
pub struct ContentPackV {
    pub pack: PackBaseV,
    pub entry_ptr_pos: u64,
    pub cluster_ptr_pos: u64,
    pub content_count: u32,
    pub cluster_count: u32,
    pub free_data: Seq<u8>,
    pub data: Seq<u8>,
}

/// The content pack of bytes `s`: the pack header (of a content pack), then at byte 64
/// the position of the content information array, the position of the cluster pointer
/// array (8 bytes each), the content count, the cluster count (4 bytes each), 24 bytes
/// of free data, padding and a checksum, up to byte 128.
pub open spec fn spec_content_pack(s: Seq<u8>) -> Result<ContentPackV, Error> {
    match spec_pack_base(s) {
        Err(e) => Err(e),
        Ok(p) => if p.magic != PackKind::Content {
            Err(Error::InvalidFormat)
        } else if !in_bounds(s, 64, 64) {
            Err(Error::UnexpectedEnd)
        } else {
            Ok(
                ContentPackV {
                    pack: p,
                    entry_ptr_pos: spec_uint_at(s, 64, 8).unwrap(),
                    cluster_ptr_pos: spec_uint_at(s, 72, 8).unwrap(),
                    content_count: spec_uint_at(s, 80, 4).unwrap() as u32,
                    cluster_count: spec_uint_at(s, 84, 4).unwrap() as u32,
                    free_data: s.subrange(88, 112),
                    data: s,
                },
            )
        },
    }
}

/// The cluster `ci` of the pack: its pointer (the header size on 2 bytes, the header
/// position on 6) is entry `ci` of the cluster pointer array.
pub open spec fn spec_cluster_at(v: ContentPackV, ci: u64) -> Result<crate::reader::cluster::ClusterV, Error> {
    match spec_uint_at(v.data, v.cluster_ptr_pos + 8 * ci, 2) {
        Err(e) => Err(e),
        Ok(size) => match spec_uint_at(v.data, v.cluster_ptr_pos + 8 * ci + 2, 6) {
            Err(e) => Err(e),
            Ok(offset) => spec_cluster(v.data, offset as int, size as int),
        },
    }
}

/// The bytes of content `index`: its information (4 bytes of the content information
/// array) holds the blob index in its low byte and the cluster index above; a cluster
/// index past the cluster count is an error.
pub open spec fn spec_content(v: ContentPackV, index: u32) -> Result<Seq<u8>, Error> {
    match spec_uint_at(v.data, v.entry_ptr_pos + 4 * index, 4) {
        Err(e) => Err(e),
        Ok(info) => {
            let ci = info / 256;
            let bi = (info % 256) as u16;
            if ci >= v.cluster_count {
                Err(Error::InvalidFormat)
            } else {
                match spec_cluster_at(v, ci) {
                    Err(e) => Err(e),
                    Ok(c) => spec_blob(c, bi),
                }
            }
        },
    }
}

/// A content pack.
#[derive(Debug)]
pub struct ContentPack {
    pack: PackBase,
    entry_ptr_pos: u64,
    cluster_ptr_pos: u64,
    content_count: u32,
    cluster_count: u32,
    free_data: Vec<u8>,
    data: Arc<Vec<u8>>,
}

impl View for ContentPack {
    type V = ContentPackV;

    closed spec fn view(&self) -> ContentPackV {
        ContentPackV {
            pack: self.pack@,
            entry_ptr_pos: self.entry_ptr_pos,
            cluster_ptr_pos: self.cluster_ptr_pos,
            content_count: self.content_count,
            cluster_count: self.cluster_count,
            free_data: self.free_data@,
            data: self.data@,
        }
    }
}

impl ContentPack {
    /// Reads the content pack whose bytes are `data`.
    pub fn new(data: Arc<Vec<u8>>) -> (r: Result<ContentPack, Error>)
        ensures
            match spec_content_pack(data@) {
                Ok(v) => (r matches Ok(p) && p@ == v),
                Err(e) => r == Err::<ContentPack, Error>(e),
            },
    {
        let buf = data.as_slice();
        let pack = PackBase::produce(buf)?;
        match pack.magic {
            PackKind::Content => {},
            _ => return Err(Error::InvalidFormat),
        }
        if buf.len() < 128 {
            return Err(Error::UnexpectedEnd);
        }
        let entry_ptr_pos = read_uint_at(buf, 64, 8)?;
        let cluster_ptr_pos = read_uint_at(buf, 72, 8)?;
        let content_count = read_uint_at(buf, 80, 4)?;
        let cluster_count = read_uint_at(buf, 84, 4)?;
        proof {
            crate::bases::lemma_le_at_bound(buf@, 80, 4);
            crate::bases::lemma_le_at_bound(buf@, 84, 4);
            crate::ints::lemma_pow256_values();
        }
        let free_data = slice_to_vec(slice_subrange(buf, 88, 112));
        Ok(
            ContentPack {
                pack,
                entry_ptr_pos,
                cluster_ptr_pos,
                content_count: content_count as u32,
                cluster_count: cluster_count as u32,
                free_data,
                data,
            },
        )
    }

    /// The number of contents.
    pub fn get_content_count(&self) -> (r: u32)
        ensures
            r == self@.content_count,
    {
        self.content_count
    }

    /// The free data of the pack.
    pub fn get_free_data(&self) -> (r: &[u8])
        ensures
            r@ == self@.free_data,
    {
        self.free_data.as_slice()
    }

    /// The kind of the pack.
    pub fn kind(&self) -> (r: PackKind)
        ensures
            r == self@.pack.magic,
    {
        self.pack.magic
    }

    /// The vendor id of the pack.
    pub fn app_vendor_id(&self) -> (r: [u8; 4])
        ensures
            r@ == self@.pack.app_vendor_id,
    {
        self.pack.app_vendor_id
    }

    /// The version of the pack format.
    pub fn version(&self) -> (r: (u8, u8))
        ensures
            r == (self@.pack.major_version, self@.pack.minor_version),
    {
        (self.pack.major_version, self.pack.minor_version)
    }

    /// The UUID of the pack.
    pub fn uuid(&self) -> (r: [u8; 16])
        ensures
            r@ == self@.pack.uuid,
    {
        self.pack.uuid
    }

    /// The size of the pack.
    pub fn size(&self) -> (r: u64)
        ensures
            r == self@.pack.file_size,
    {
        self.pack.file_size
    }

    /// The cluster `ci`.
    fn get_cluster(&self, ci: u64) -> (r: Result<Cluster, Error>)
        requires
            ci < 0x100_0000,
        ensures
            match spec_cluster_at(self@, ci) {
                Ok(c) => (r matches Ok(rc) && rc@ == c),
                Err(e) => r matches Err(re) && re == e,
            },
    {
        let buf = self.data.as_slice();
        let size = read_uint_at_sum(buf, self.cluster_ptr_pos, 8 * ci, 2)?;
        proof {
            crate::bases::lemma_le_at_bound(buf@, self.cluster_ptr_pos + 8 * ci, 2);
            crate::ints::lemma_pow256_values();
        }
        let offset = read_uint_at_sum(buf, self.cluster_ptr_pos, 8 * ci + 2, 6)?;
        if offset > buf.len() as u64 {
            return Err(Error::UnexpectedEnd);
        }
        Cluster::parse(buf, offset as usize, size as usize)
    }

    /// The bytes of content `index`; `None` past the last content.
    pub fn get_content(&self, index: u32) -> (r: Result<Option<ByteRegion>, Error>)
        ensures
            index >= self@.content_count ==> r matches Ok(None),
            index < self@.content_count ==> match spec_content(self@, index) {
                Ok(b) => (r matches Ok(Some(g)) && g@ == b),
                Err(e) => r matches Err(re) && re == e,
            },
    {
        if index >= self.content_count {
            return Ok(None);
        }
        let buf = self.data.as_slice();
        let info = read_uint_at_sum(buf, self.entry_ptr_pos, 4 * index as u64, 4)?;
        proof {
            assert(in_bounds(buf@, self.entry_ptr_pos + 4 * index, 4));
            crate::bases::lemma_le_at_bound(buf@, self.entry_ptr_pos + 4 * index, 4);
            crate::ints::lemma_pow256_values();
        }
        let ci = info / 256;
        let bi = (info % 256) as u16;
        if ci >= self.cluster_count as u64 {
            return Err(Error::InvalidFormat);
        }
        let cluster = self.get_cluster(ci)?;
        let region = cluster.get_bytes(bi)?;
        Ok(Some(region))
    }

    /// Whether the pack passes its check: the bytes before its check information hash
    /// to the stored hash.
    pub fn check(&self) -> (r: Result<bool, Error>)
        ensures
            match spec_check_info(self@.data, self@.pack.check_info_pos as int) {
                Err(e) => r == Err::<bool, Error>(e),
                Ok(None) => r == Ok::<bool, Error>(true),
                Ok(Some(h)) => r == Ok::<bool, Error>(
                    blake3_hash(self@.data.take(self@.pack.check_info_pos as int)) == h,
                ),
            },
    {
        let buf = self.data.as_slice();
        let pos = self.pack.check_info_pos;
        if pos >= buf.len() as u64 {
            return Err(Error::UnexpectedEnd);
        }
        let check_info = CheckInfo::produce(buf, pos as usize)?;
        let source = slice_subrange(buf, 0, pos as usize);
        proof {
            assert(source@ =~= self@.data.take(pos as int));
        }
        Ok(check_info.check(source))
    }
}

/// The cluster of index `ci` is the one that entry `ci` of the cluster pointer array
/// describes: its header lies at the position the entry holds, and is as long as the
/// size it holds. Two cluster indexes read two different entries.
pub proof fn lemma_cluster_from_its_pointer(v: ContentPackV, ci: u64)
    requires
        in_bounds(v.data, v.cluster_ptr_pos + 8 * ci, 8),
    ensures
        spec_cluster_at(v, ci) == spec_cluster(
            v.data,
            pointer_position(pointer_entry(v.data, v.cluster_ptr_pos as int, ci as int)),
            pointer_size(pointer_entry(v.data, v.cluster_ptr_pos as int, ci as int)),
        ),
{
    lemma_pointer_entry(v.data, v.cluster_ptr_pos as int, ci as int);
}

/// Content `index` is found through its information, entry `index` of the 4-byte content
/// information array: the cluster is the one that the pointer entry of index
/// information / 256 describes, and the blob is information % 256 of that cluster.
pub proof fn lemma_content_from_its_cluster(v: ContentPackV, index: u32)
    requires
        in_bounds(v.data, v.entry_ptr_pos + 4 * index, 4),
        le_value(v.data.subrange(v.entry_ptr_pos + 4 * index, v.entry_ptr_pos + 4 * index + 4)) / 256 < v.cluster_count,
        in_bounds(
            v.data,
            v.cluster_ptr_pos + 8 * (le_value(v.data.subrange(v.entry_ptr_pos + 4 * index, v.entry_ptr_pos + 4 * index + 4)) / 256),
            8,
        ),
    ensures
        ({
            let info = le_value(v.data.subrange(v.entry_ptr_pos + 4 * index, v.entry_ptr_pos + 4 * index + 4));
            let e = pointer_entry(v.data, v.cluster_ptr_pos as int, (info / 256) as int);
            spec_content(v, index) == match spec_cluster(v.data, pointer_position(e), pointer_size(e)) {
                Err(err) => Err(err),
                Ok(c) => spec_blob(c, (info % 256) as u16),
            }
        }),
{
    let p = v.entry_ptr_pos + 4 * index;
    crate::bases::lemma_le_at_bound(v.data, p, 4);
    crate::ints::lemma_pow256_values();
    let info = le_value(v.data.subrange(p, p + 4));
    assert(spec_uint_at(v.data, p, 4) == Ok::<u64, Error>(info as u64));
    lemma_cluster_from_its_pointer(v, (info / 256) as u64);
}

} // verus!
