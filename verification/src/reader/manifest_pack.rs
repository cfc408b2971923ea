//! The pack information blocks of a manifest pack, which lie just before its check
//! information.
use super::pack_base::{copy_bytes_at, spec_pack_base, PackBase, PackBaseV};
use crate::assoc::bytes_eq;
use crate::bases::{in_bounds, read_uint_at, spec_uint_at};
use crate::directory_pack::value_store::{spec_value_store, ValueStore, ValueStoreV};
use crate::error::Error;
use crate::pack::PackKind;
use std::sync::Arc;
use vstd::prelude::*;
use vstd::slice::{slice_subrange, slice_to_vec};

verus! {

/// The size of a pack information block.
pub const PACK_INFO_BLOCK_SIZE: u64 = 256;

/// The positions of the `pack_count` pack information blocks that end at the check
/// information, first to last.
pub struct PackOffsetsIter {
    offset: u64,
    left: u16,
}

impl PackOffsetsIter {
    /// The blocks left all lie below the largest position.
    #[verifier::type_invariant]
    closed spec fn blocks_fit(&self) -> bool {
        self.offset + self.left * PACK_INFO_BLOCK_SIZE <= u64::MAX
    }

    /// The position of the next block.
    pub closed spec fn spec_offset(&self) -> u64 {
        self.offset
    }

    /// The number of blocks left.
    pub closed spec fn spec_left(&self) -> u16 {
        self.left
    }

    /// The positions of the `pack_count` blocks that end at `check_info_pos`; an error
    /// when they would start before the beginning of the pack.
    pub fn new(check_info_pos: u64, pack_count: u16) -> (r: Result<PackOffsetsIter, Error>)
        ensures
            pack_count * PACK_INFO_BLOCK_SIZE <= check_info_pos ==> (r matches Ok(it)
                && it.spec_offset() == check_info_pos - pack_count * PACK_INFO_BLOCK_SIZE
                && it.spec_left() == pack_count),
            pack_count * PACK_INFO_BLOCK_SIZE > check_info_pos ==> r == Err::<PackOffsetsIter, Error>(
                Error::InvalidFormat,
            ),
    {
        let span = pack_count as u64 * PACK_INFO_BLOCK_SIZE;
        if span > check_info_pos {
            return Err(Error::InvalidFormat);
        }
        Ok(PackOffsetsIter { offset: check_info_pos - span, left: pack_count })
    }

    /// The position of the next block, if any is left.
    pub fn next(&mut self) -> (r: Option<u64>)
        ensures
            old(self).spec_left() == 0 ==> r is None && *final(self) == *old(self),
            old(self).spec_left() > 0 ==> r == Some(old(self).spec_offset()) && final(self).spec_left()
                == old(self).spec_left() - 1 && final(self).spec_offset() == old(self).spec_offset()
                + PACK_INFO_BLOCK_SIZE,
    {
        proof {
            use_type_invariant(&*self);
        }
        if self.left != 0 {
            let offset = self.offset;
            *self = PackOffsetsIter { offset: offset + PACK_INFO_BLOCK_SIZE, left: self.left - 1 };
            Some(offset)
        } else {
            None
        }
    }
}

} // verus!

verus! {

/// The information block of a pack in a manifest pack.
#[derive(Debug, Clone, PartialEq, Eq)]
pub struct PackInfo {
    pub uuid: [u8; 16],
    pub pack_size: u64,
    /// The size and the position of the check information of the pack.
    pub check_info_size: u64,
    pub check_info_offset: u64,
    pub pack_id: u16,
    pub pack_kind: PackKind,
    pub pack_group: u8,
    pub free_data_id: u16,
    pub pack_location: Vec<u8>,
}

/// The mathematical content of a [PackInfo].
pub struct PackInfoV {
    pub uuid: Seq<u8>,
    pub pack_size: u64,
    pub check_info_size: u64,
    pub check_info_offset: u64,
    pub pack_id: u16,
    pub pack_kind: PackKind,
    pub pack_group: u8,
    pub free_data_id: u16,
    pub pack_location: Seq<u8>,
}

impl View for PackInfo {
    type V = PackInfoV;

    open spec fn view(&self) -> PackInfoV {
        PackInfoV {
            uuid: self.uuid@,
            pack_size: self.pack_size,
            check_info_size: self.check_info_size,
            check_info_offset: self.check_info_offset,
            pack_id: self.pack_id,
            pack_kind: self.pack_kind,
            pack_group: self.pack_group,
            free_data_id: self.free_data_id,
            pack_location: self.pack_location@,
        }
    }
}

/// The kind of pack of a kind letter: `d` directory, `c` content, `m` manifest.
pub open spec fn kind_of_letter(c: u8) -> Option<PackKind> {
    if c == 0x64 {
        Some(PackKind::Directory)
    } else if c == 0x63 {
        Some(PackKind::Content)
    } else if c == 0x6d {
        Some(PackKind::Main)
    } else {
        None
    }
}

/// The pack information block at `p`: the UUID (16 bytes), the pack size (8), the
/// check information pointer (its size on 2 bytes, its position on 6), the pack id (2),
/// the kind letter, the group, the free data id (2) and the location as a
/// length-prefixed string of at most 213 bytes, then padding and a checksum, up to 256
/// bytes.
pub open spec fn spec_manifest_pack_info(s: Seq<u8>, p: int) -> Result<PackInfoV, Error> {
    if !in_bounds(s, p, 256) {
        Err(Error::UnexpectedEnd)
    } else {
        match kind_of_letter(s[p + 34]) {
            None => Err(Error::InvalidFormat),
            Some(kind) => {
                let n = s[p + 38] as int;
                if n > 213 {
                    Err(Error::InvalidFormat)
                } else {
                    Ok(
                        PackInfoV {
                            uuid: s.subrange(p, p + 16),
                            pack_size: spec_uint_at(s, p + 16, 8).unwrap(),
                            check_info_size: spec_uint_at(s, p + 24, 2).unwrap(),
                            check_info_offset: spec_uint_at(s, p + 26, 6).unwrap(),
                            pack_id: spec_uint_at(s, p + 32, 2).unwrap() as u16,
                            pack_kind: kind,
                            pack_group: s[p + 35],
                            free_data_id: spec_uint_at(s, p + 36, 2).unwrap() as u16,
                            pack_location: s.subrange(p + 39, p + 39 + n),
                        },
                    )
                }
            },
        }
    }
}

impl PackInfo {
    /// Reads the pack information block at `pos`.
    pub fn produce(buf: &[u8], pos: u64) -> (r: Result<PackInfo, Error>)
        ensures
            match spec_manifest_pack_info(buf@, pos as int) {
                Ok(v) => (r matches Ok(p) && p@ == v),
                Err(e) => r == Err::<PackInfo, Error>(e),
            },
    {
        let len = buf.len();
        if pos > len as u64 || 256 > len - pos as usize {
            return Err(Error::UnexpectedEnd);
        }
        let p = pos as usize;
        let kind = if buf[p + 34] == 0x64 {
            PackKind::Directory
        } else if buf[p + 34] == 0x63 {
            PackKind::Content
        } else if buf[p + 34] == 0x6d {
            PackKind::Main
        } else {
            return Err(Error::InvalidFormat);
        };
        let n = buf[p + 38] as usize;
        if n > 213 {
            return Err(Error::InvalidFormat);
        }
        let pack_size = read_uint_at(buf, p + 16, 8)?;
        let check_info_size = read_uint_at(buf, p + 24, 2)?;
        let check_info_offset = read_uint_at(buf, p + 26, 6)?;
        let pack_id = read_uint_at(buf, p + 32, 2)?;
        let free_data_id = read_uint_at(buf, p + 36, 2)?;
        proof {
            crate::bases::lemma_le_at_bound(buf@, p + 32, 2);
            crate::bases::lemma_le_at_bound(buf@, p + 36, 2);
            crate::ints::lemma_pow256_values();
        }
        Ok(
            PackInfo {
                uuid: copy_bytes_at(buf, p),
                pack_size,
                check_info_size,
                check_info_offset,
                pack_id: pack_id as u16,
                pack_kind: kind,
                pack_group: buf[p + 35],
                free_data_id: free_data_id as u16,
                pack_location: slice_to_vec(slice_subrange(buf, p + 39, p + 39 + n)),
            },
        )
    }
}

/// The views of a sequence of pack information blocks.
pub open spec fn infos_view(v: Seq<PackInfo>) -> Seq<PackInfoV> {
    v.map_values(|p: PackInfo| p@)
}

/// Reading the first `i` pack information blocks from `start` on: the directory pack
/// (the last one of that kind), the other packs in order, and the largest id of these.
pub open spec fn spec_manifest_infos(s: Seq<u8>, start: int, i: nat) -> Result<
    (Option<PackInfoV>, Seq<PackInfoV>, u16),
    Error,
>
    decreases i,
{
    if i == 0 {
        Ok((None, Seq::empty(), 0u16))
    } else {
        match spec_manifest_infos(s, start, (i - 1) as nat) {
            Err(e) => Err(e),
            Ok((dir, others, max_id)) => match spec_manifest_pack_info(s, start + PACK_INFO_BLOCK_SIZE * (i - 1)) {
                Err(e) => Err(e),
                Ok(pi) => if pi.pack_kind == PackKind::Directory {
                    Ok((Some(pi), others, max_id))
                } else {
                    Ok((dir, others.push(pi), if pi.pack_id > max_id { pi.pack_id } else { max_id }))
                },
            },
        }
    }
}

/// Once reading the blocks fails, reading more of them fails the same way.
proof fn lemma_manifest_infos_err(s: Seq<u8>, start: int, i: nat, n: nat)
    requires
        i <= n,
        spec_manifest_infos(s, start, i) is Err,
    ensures
        spec_manifest_infos(s, start, n) == spec_manifest_infos(s, start, i),
    decreases n,
{
    if i < n {
        lemma_manifest_infos_err(s, start, i, (n - 1) as nat);
    }
}

/// The mathematical content of a [ManifestPack].
pub struct ManifestPackV {
    pub pack: PackBaseV,
    pub pack_count: u16,
    pub free_data: Seq<u8>,
    pub directory_pack_info: PackInfoV,
    pub pack_infos: Seq<PackInfoV>,
    pub max_id: u16,
    pub value_store: Option<ValueStoreV>,
    pub data: Seq<u8>,
}

/// The manifest pack of bytes `s`: the pack header (of a manifest pack), then at byte
/// 64 the pack count (2 bytes), the value store pointer (its size on 2 bytes, its
/// position on 6; none when both are 0), 50 bytes of free data and a checksum. The pack
/// information blocks end at the check information. There must be a directory pack.
pub open spec fn spec_manifest_pack(s: Seq<u8>) -> Result<ManifestPackV, Error> {
    match spec_pack_base(s) {
        Err(e) => Err(e),
        Ok(p) => if p.magic != PackKind::Main {
            Err(Error::InvalidFormat)
        } else if !in_bounds(s, 64, 64) {
            Err(Error::UnexpectedEnd)
        } else {
            let count = spec_uint_at(s, 64, 2).unwrap() as u16;
            let vs_size = spec_uint_at(s, 66, 2).unwrap();
            let vs_offset = spec_uint_at(s, 68, 6).unwrap();
            if count * PACK_INFO_BLOCK_SIZE > p.check_info_pos {
                Err(Error::InvalidFormat)
            } else {
                match spec_manifest_infos(s, p.check_info_pos - count * PACK_INFO_BLOCK_SIZE, count as nat) {
                    Err(e) => Err(e),
                    Ok((dir, others, max_id)) => match dir {
                        None => Err(Error::InvalidFormat),
                        Some(d) => {
                            let vs = if vs_size == 0 && vs_offset == 0 {
                                Ok(None)
                            } else {
                                match spec_value_store(s, vs_offset as int, vs_size as int) {
                                    Err(e) => Err(e),
                                    Ok(v) => Ok(Some(v)),
                                }
                            };
                            match vs {
                                Err(e) => Err(e),
                                Ok(v) => Ok(
                                    ManifestPackV {
                                        pack: p,
                                        pack_count: count,
                                        free_data: s.subrange(74, 124),
                                        directory_pack_info: d,
                                        pack_infos: others,
                                        max_id,
                                        value_store: v,
                                        data: s,
                                    },
                                ),
                            }
                        },
                    },
                }
            }
        },
    }
}

/// The value store of a manifest pack, as plain values.
pub open spec fn opt_store_view(v: Option<ValueStore>) -> Option<ValueStoreV> {
    match v {
        None => None,
        Some(x) => Some(x@),
    }
}

/// A manifest pack: the packs of a container.
#[derive(Debug)]
pub struct ManifestPack {
    pack: PackBase,
    pack_count: u16,
    free_data: Vec<u8>,
    directory_pack_info: PackInfo,
    pack_infos: Vec<PackInfo>,
    max_id: u16,
    value_store: Option<ValueStore>,
    data: Arc<Vec<u8>>,
}

impl View for ManifestPack {
    type V = ManifestPackV;

    closed spec fn view(&self) -> ManifestPackV {
        ManifestPackV {
            pack: self.pack@,
            pack_count: self.pack_count,
            free_data: self.free_data@,
            directory_pack_info: self.directory_pack_info@,
            pack_infos: infos_view(self.pack_infos@),
            max_id: self.max_id,
            value_store: opt_store_view(self.value_store),
            data: self.data@,
        }
    }
}

impl ManifestPack {
    /// Reads the manifest pack whose bytes are `data`.
    pub fn new(data: Arc<Vec<u8>>) -> (r: Result<ManifestPack, Error>)
        ensures
            match spec_manifest_pack(data@) {
                Ok(v) => (r matches Ok(p) && p@ == v),
                Err(e) => r matches Err(re) && re == e,
            },
            r matches Ok(p) ==> is_max_id(p@.pack_infos, p@.max_id),
    {
        let buf = data.as_slice();
        let pack = PackBase::produce(buf)?;
        match pack.magic {
            PackKind::Main => {},
            _ => return Err(Error::InvalidFormat),
        }
        if buf.len() < 128 {
            return Err(Error::UnexpectedEnd);
        }
        let count = read_uint_at(buf, 64, 2)?;
        let vs_size = read_uint_at(buf, 66, 2)?;
        let vs_offset = read_uint_at(buf, 68, 6)?;
        proof {
            crate::bases::lemma_le_at_bound(buf@, 64, 2);
            crate::bases::lemma_le_at_bound(buf@, 66, 2);
            crate::ints::lemma_pow256_values();
        }
        let pack_count = count as u16;
        assert(pack_count == spec_uint_at(buf@, 64, 2).unwrap() as u16);
        assert(spec_pack_base(buf@) == Ok::<PackBaseV, Error>(pack@));
        let mut offsets = PackOffsetsIter::new(pack.check_info_pos, pack_count)?;
        let ghost start = (pack.check_info_pos - pack_count * PACK_INFO_BLOCK_SIZE) as int;
        let mut dir: Option<PackInfo> = None;
        let mut others: Vec<PackInfo> = Vec::new();
        let mut max_id: u16 = 0;
        let mut i: u16 = 0;
        assert(infos_view(others@) =~= Seq::<PackInfoV>::empty());
        while i < pack_count
            invariant
                buf@ == data@,
                spec_pack_base(buf@) == Ok::<PackBaseV, Error>(pack@),
                pack.magic == PackKind::Main,
                buf@.len() >= 128,
                pack_count == spec_uint_at(buf@, 64, 2).unwrap() as u16,
                pack_count * PACK_INFO_BLOCK_SIZE <= pack.check_info_pos,
                start == pack.check_info_pos - pack_count * PACK_INFO_BLOCK_SIZE,
                i <= pack_count,
                offsets.spec_left() == pack_count - i,
                offsets.spec_offset() == start + PACK_INFO_BLOCK_SIZE * i,
                spec_manifest_infos(buf@, start, i as nat) == Ok::<(Option<PackInfoV>, Seq<PackInfoV>, u16), Error>(
                    (
                        match dir {
                            None => None,
                            Some(d) => Some(d@),
                        },
                        infos_view(others@),
                        max_id,
                    ),
                ),
            decreases pack_count - i,
        {
            let pos = match offsets.next() {
                Some(p) => p,
                None => return Err(Error::InvalidFormat),
            };
            let info = match PackInfo::produce(buf, pos) {
                Ok(x) => x,
                Err(e) => {
                    proof {
                        assert(spec_manifest_infos(buf@, start, (i + 1) as nat) == Err::<
                            (Option<PackInfoV>, Seq<PackInfoV>, u16),
                            Error,
                        >(e));
                        lemma_manifest_infos_err(buf@, start, (i + 1) as nat, pack_count as nat);
                        assert(spec_manifest_infos(buf@, start, pack_count as nat) == Err::<
                            (Option<PackInfoV>, Seq<PackInfoV>, u16),
                            Error,
                        >(e));
                        assert(spec_manifest_pack(data@) == Err::<ManifestPackV, Error>(e));
                    }
                    return Err(e);
                },
            };
            match info.pack_kind {
                PackKind::Directory => {
                    dir = Some(info);
                },
                _ => {
                    if info.pack_id > max_id {
                        max_id = info.pack_id;
                    }
                    let ghost before = others@;
                    others.push(info);
                    assert(infos_view(others@) =~= infos_view(before).push(others@.last()@));
                },
            }
            i = i + 1;
        }
        let directory_pack_info = match dir {
            Some(d) => d,
            None => return Err(Error::InvalidFormat),
        };
        let value_store = if vs_size == 0 && vs_offset == 0 {
            None
        } else {
            if vs_offset > buf.len() as u64 {
                return Err(Error::UnexpectedEnd);
            }
            Some(ValueStore::parse(buf, vs_offset as usize, vs_size as usize)?)
        };
        let free_data = slice_to_vec(slice_subrange(buf, 74, 124));
        let r = ManifestPack {
                pack,
                pack_count,
                free_data,
                directory_pack_info,
                pack_infos: others,
                max_id,
                value_store,
                data,
            };
        proof {
            lemma_manifest_max_id(r@.data);
        }
        Ok(r)
    }

    /// The number of packs.
    pub fn pack_count(&self) -> (r: u16)
        ensures
            r == self@.pack_count,
    {
        self.pack_count
    }

    /// The largest id of the packs other than the directory pack.
    pub fn max_id(&self) -> (r: u16)
        ensures
            r == self@.max_id,
    {
        self.max_id
    }

    /// The header of the pack.
    pub fn pack_base(&self) -> (r: &PackBase)
        ensures
            r@ == self@.pack,
    {
        &self.pack
    }

    /// The free data of the pack.
    pub fn get_free_data(&self) -> (r: &[u8])
        ensures
            r@ == self@.free_data,
    {
        self.free_data.as_slice()
    }

    /// The information of the directory pack.
    pub fn get_directory_pack_info(&self) -> (r: &PackInfo)
        ensures
            r@ == self@.directory_pack_info,
    {
        &self.directory_pack_info
    }

    /// The information of the other packs, in order.
    pub fn get_pack_infos(&self) -> (r: &Vec<PackInfo>)
        ensures
            infos_view(r@) == self@.pack_infos,
    {
        &self.pack_infos
    }

    /// The information of the first pack (other than the directory pack) of id
    /// `pack_id`; an error when there is none.
    pub fn get_content_pack_info(&self, pack_id: u16) -> (r: Result<&PackInfo, Error>)
        ensures
            r matches Ok(p) ==> exists|i: int|
                0 <= i < self@.pack_infos.len() && p@ == self@.pack_infos[i] && p.pack_id == pack_id && forall|j: int|
                    0 <= j < i ==> self@.pack_infos[j].pack_id != pack_id,
            r is Err ==> r == Err::<&PackInfo, Error>(Error::Arg) && forall|j: int|
                0 <= j < self@.pack_infos.len() ==> self@.pack_infos[j].pack_id != pack_id,
    {
        let n = self.pack_infos.len();
        let mut i: usize = 0;
        while i < n
            invariant
                n == self.pack_infos@.len(),
                i <= n,
                forall|j: int| 0 <= j < i ==> self.pack_infos@[j].pack_id != pack_id,
            decreases n - i,
        {
            if self.pack_infos[i].pack_id == pack_id {
                proof {
                    assert(self@.pack_infos[i as int] == self.pack_infos@[i as int]@);
                    assert forall|j: int| 0 <= j < i implies self@.pack_infos[j].pack_id != pack_id by {
                        assert(self@.pack_infos[j] == self.pack_infos@[j]@);
                    }
                }
                return Ok(&self.pack_infos[i]);
            }
            i = i + 1;
        }
        proof {
            assert forall|j: int| 0 <= j < self@.pack_infos.len() implies self@.pack_infos[j].pack_id != pack_id by {
                assert(self@.pack_infos[j] == self.pack_infos@[j]@);
            }
        }
        Err(Error::Arg)
    }

    /// The information of the first pack (other than the directory pack) whose UUID is
    /// `uuid`; an error when there is none.
    pub fn get_content_pack_info_uuid(&self, uuid: &[u8; 16]) -> (r: Result<&PackInfo, Error>)
        ensures
            r matches Ok(p) ==> exists|i: int|
                0 <= i < self@.pack_infos.len() && p@ == self@.pack_infos[i] && p.uuid@ == uuid@ && forall|j: int|
                    0 <= j < i ==> self@.pack_infos[j].uuid != uuid@,
            r is Err ==> r == Err::<&PackInfo, Error>(Error::Arg) && forall|j: int|
                0 <= j < self@.pack_infos.len() ==> self@.pack_infos[j].uuid != uuid@,
    {
        let n = self.pack_infos.len();
        let mut i: usize = 0;
        while i < n
            invariant
                n == self.pack_infos@.len(),
                i <= n,
                forall|j: int| 0 <= j < i ==> self.pack_infos@[j].uuid@ != uuid@,
            decreases n - i,
        {
            if bytes_eq(&self.pack_infos[i].uuid, uuid) {
                proof {
                    assert(self@.pack_infos[i as int] == self.pack_infos@[i as int]@);
                    assert forall|j: int| 0 <= j < i implies self@.pack_infos[j].uuid != uuid@ by {
                        assert(self@.pack_infos[j] == self.pack_infos@[j]@);
                    }
                }
                return Ok(&self.pack_infos[i]);
            }
            i = i + 1;
        }
        proof {
            assert forall|j: int| 0 <= j < self@.pack_infos.len() implies self@.pack_infos[j].uuid != uuid@ by {
                assert(self@.pack_infos[j] == self.pack_infos@[j]@);
            }
        }
        Err(Error::Arg)
    }
}

/// Whether `m` is the largest pack id of `infos`, 0 when there is none: no id is above
/// it, and it is one of the ids.
pub open spec fn is_max_id(infos: Seq<PackInfoV>, m: u16) -> bool {
    &&& forall|k: int| 0 <= k < infos.len() ==> (#[trigger] infos[k]).pack_id <= m
    &&& (infos.len() == 0 && m == 0) || exists|k: int| 0 <= k < infos.len() && (#[trigger] infos[k]).pack_id == m
}

/// Reading pack information blocks keeps the directory pack out of the other packs, and
/// gives as largest id the largest id of the other packs read.
pub proof fn lemma_manifest_infos_max_id(s: Seq<u8>, start: int, i: nat)
    requires
        spec_manifest_infos(s, start, i) is Ok,
    ensures
        ({
            let (_, others, m) = spec_manifest_infos(s, start, i).unwrap();
            &&& is_max_id(others, m)
            &&& forall|k: int| 0 <= k < others.len() ==> (#[trigger] others[k]).pack_kind != PackKind::Directory
        }),
    decreases i,
{
    if i > 0 {
        lemma_manifest_infos_max_id(s, start, (i - 1) as nat);
        let (dir0, others0, m0) = spec_manifest_infos(s, start, (i - 1) as nat).unwrap();
        let pi = spec_manifest_pack_info(s, start + PACK_INFO_BLOCK_SIZE * (i - 1)).unwrap();
        let (_, others, m) = spec_manifest_infos(s, start, i).unwrap();
        if pi.pack_kind != PackKind::Directory {
            assert(others == others0.push(pi));
            assert forall|k: int| 0 <= k < others.len() implies (#[trigger] others[k]).pack_id <= m by {
                if k < others0.len() {
                    assert(others[k] == others0[k]);
                }
            }
            if pi.pack_id > m0 {
                assert(others[others0.len() as int].pack_id == m);
            } else if others0.len() == 0 {
                assert(m0 == 0 && m == 0);
                assert(others[0].pack_id == 0);
            } else {
                let k0 = choose|k: int| 0 <= k < others0.len() && (#[trigger] others0[k]).pack_id == m0;
                assert(others[k0] == others0[k0]);
            }
            assert forall|k: int| 0 <= k < others.len() implies (#[trigger] others[k]).pack_kind != PackKind::Directory by {
                if k < others0.len() {
                    assert(others[k] == others0[k]);
                }
            }
        }
    }
}

/// The largest id of a manifest pack is the largest id of its packs other than the
/// directory pack (0 when there is none): no pack has a larger id, and some pack has it.
pub proof fn lemma_manifest_max_id(s: Seq<u8>)
    requires
        spec_manifest_pack(s) is Ok,
    ensures
        is_max_id(spec_manifest_pack(s).unwrap().pack_infos, spec_manifest_pack(s).unwrap().max_id),
        forall|k: int|
            0 <= k < spec_manifest_pack(s).unwrap().pack_infos.len() ==> (#[trigger] spec_manifest_pack(
                s,
            ).unwrap().pack_infos[k]).pack_kind != PackKind::Directory,
{
    let p = spec_pack_base(s).unwrap();
    let count = spec_uint_at(s, 64, 2).unwrap() as u16;
    lemma_manifest_infos_max_id(s, p.check_info_pos - count * PACK_INFO_BLOCK_SIZE, count as nat);
}

} // verus!
