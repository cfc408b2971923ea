//! The main pack: the pack header, then one 256-byte information block per pack of
//! the container (the directory pack first).
use crate::bases::in_bounds;
use crate::error::Error;
use crate::ints::{be_value, lemma_be_value_bound, lemma_pow256_values};
use crate::bases::{is_utf8, valid_utf8};
use crate::pack::{blake3_hash, spec_check_info, spec_pack_header, CheckInfo, PackHeader, PackHeaderV, PackKind};
use crate::primitive::{read_be_at, spec_be_at};
use vstd::prelude::*;
use vstd::slice::{slice_subrange, slice_to_vec};

verus! {

/// The header of a main pack: the pack header, the number of content packs and 15
/// bytes of free data.
#[derive(Debug, Clone, PartialEq, Eq)]
pub struct MainPackHeader {
    pub pack_header: PackHeader,
    pub pack_count: u8,
    pub free_data: Vec<u8>,
}

/// The mathematical content of a [MainPackHeader].
pub struct MainPackHeaderV {
    pub pack_header: PackHeaderV,
    pub pack_count: u8,
    pub free_data: Seq<u8>,
}

impl View for MainPackHeader {
    type V = MainPackHeaderV;

    open spec fn view(&self) -> MainPackHeaderV {
        MainPackHeaderV { pack_header: self.pack_header@, pack_count: self.pack_count, free_data: self.free_data@ }
    }
}

/// The main pack header stored at `pos`; it takes 80 bytes.
pub open spec fn spec_main_pack_header(s: Seq<u8>, pos: int) -> Result<MainPackHeaderV, Error> {
    match spec_pack_header(s, pos) {
        Err(e) => Err(e),
        Ok(h) => if !in_bounds(s, pos + 64, 16) {
            Err(Error::UnexpectedEnd)
        } else {
            Ok(MainPackHeaderV { pack_header: h, pack_count: s[pos + 64], free_data: s.subrange(pos + 65, pos + 80) })
        },
    }
}

impl MainPackHeader {
    /// Reads the main pack header stored at `pos`.
    pub fn produce(buf: &[u8], pos: usize) -> (r: Result<MainPackHeader, Error>)
        ensures
            match spec_main_pack_header(buf@, pos as int) {
                Ok(h) => (r matches Ok(rh) && rh@ == h),
                Err(e) => r == Err::<MainPackHeader, Error>(e),
            },
    {
        let blen = buf.len();
        let pack_header = PackHeader::produce(buf, pos)?;
        if 16 > blen - (pos + 64) {
            return Err(Error::UnexpectedEnd);
        }
        let pack_count = buf[pos + 64];
        let free_data = slice_to_vec(slice_subrange(buf, pos + 65, pos + 80));
        Ok(MainPackHeader { pack_header, pack_count, free_data })
    }
}

/// Where a pack lies: at an offset of the container file, or in a file of its own.
#[derive(Debug, Clone, PartialEq, Eq)]
pub enum PackPos {
    Offset(u64),
    Path(Vec<u8>),
}

/// The mathematical content of a [PackPos].
pub enum PackPosV {
    Offset(u64),
    Path(Seq<u8>),
}

impl View for PackPos {
    type V = PackPosV;

    open spec fn view(&self) -> PackPosV {
        match self {
            PackPos::Offset(o) => PackPosV::Offset(*o),
            PackPos::Path(p) => PackPosV::Path(p@),
        }
    }
}

/// What the main pack says of a pack.
#[derive(Debug, Clone, PartialEq, Eq)]
pub struct PackInfo {
    pub id: [u8; 16],
    pub pack_id: u8,
    pub free_data: Vec<u8>,
    pub pack_size: u64,
    pub pack_check_info: u64,
    pub pack_pos: PackPos,
}

/// The mathematical content of a [PackInfo].
pub struct PackInfoV {
    pub id: Seq<u8>,
    pub pack_id: u8,
    pub free_data: Seq<u8>,
    pub pack_size: u64,
    pub pack_check_info: u64,
    pub pack_pos: PackPosV,
}

impl View for PackInfo {
    type V = PackInfoV;

    open spec fn view(&self) -> PackInfoV {
        PackInfoV {
            id: self.id@,
            pack_id: self.pack_id,
            free_data: self.free_data@,
            pack_size: self.pack_size,
            pack_check_info: self.pack_check_info,
            pack_pos: self.pack_pos@,
        }
    }
}

/// The 256-byte pack information block stored at `pos`: the pack UUID, its id, 103
/// bytes of free data, its size, the position of its check information, its offset
/// and, when the offset is zero, its path as a length-prefixed UTF-8 string of at
/// most 111 bytes.
pub open spec fn spec_pack_info(s: Seq<u8>, pos: int) -> Result<PackInfoV, Error> {
    if !in_bounds(s, pos, 144) {
        Err(Error::UnexpectedEnd)
    } else {
        let offset = be_value(s.subrange(pos + 136, pos + 144));
        let info = |pack_pos: PackPosV|
            PackInfoV {
                id: s.subrange(pos, pos + 16),
                pack_id: s[pos + 16],
                free_data: s.subrange(pos + 17, pos + 120),
                pack_size: be_value(s.subrange(pos + 120, pos + 128)) as u64,
                pack_check_info: be_value(s.subrange(pos + 128, pos + 136)) as u64,
                pack_pos,
            };
        if offset != 0 {
            if in_bounds(s, pos + 144, 112) {
                Ok(info(PackPosV::Offset(offset as u64)))
            } else {
                Err(Error::UnexpectedEnd)
            }
        } else if !in_bounds(s, pos + 144, 1) {
            Err(Error::UnexpectedEnd)
        } else {
            let n = s[pos + 144] as int;
            if !in_bounds(s, pos + 145, n) {
                Err(Error::UnexpectedEnd)
            } else if n > 111 {
                Err(Error::InvalidFormat)
            } else if !in_bounds(s, pos + 145 + n, 111 - n) {
                Err(Error::UnexpectedEnd)
            } else if !is_utf8(s.subrange(pos + 145, pos + 145 + n)) {
                Err(Error::InvalidFormat)
            } else {
                Ok(info(PackPosV::Path(s.subrange(pos + 145, pos + 145 + n))))
            }
        }
    }
}

impl PackInfo {
    /// A copy of the pack information.
    pub fn copy(&self) -> (r: PackInfo)
        ensures
            r@ == self@,
    {
        PackInfo {
            id: self.id,
            pack_id: self.pack_id,
            free_data: slice_to_vec(self.free_data.as_slice()),
            pack_size: self.pack_size,
            pack_check_info: self.pack_check_info,
            pack_pos: match &self.pack_pos {
                PackPos::Offset(o) => PackPos::Offset(*o),
                PackPos::Path(p) => PackPos::Path(slice_to_vec(p.as_slice())),
            },
        }
    }

    /// Reads the pack information block stored at `pos`.
    pub fn produce(buf: &[u8], pos: usize) -> (r: Result<PackInfo, Error>)
        ensures
            match spec_pack_info(buf@, pos as int) {
                Ok(p) => (r matches Ok(rp) && rp@ == p),
                Err(e) => r == Err::<PackInfo, Error>(e),
            },
    {
        let blen = buf.len();
        if 144 > blen || pos > blen - 144 {
            return Err(Error::UnexpectedEnd);
        }
        let mut id = [0u8; 16];
        let mut i: usize = 0;
        while i < 16
            invariant
                blen == buf@.len(),
                pos + 144 <= blen,
                i <= 16,
                id@.len() == 16,
                forall|j: int| 0 <= j < i ==> id@[j] == buf@[pos + j],
            decreases 16 - i,
        {
            id[i] = buf[pos + i];
            i = i + 1;
        }
        assert(id@ =~= buf@.subrange(pos as int, pos + 16));
        let pack_id = buf[pos + 16];
        let free_data = slice_to_vec(slice_subrange(buf, pos + 17, pos + 120));
        let pack_size = read_be_at(buf, pos + 120, 8)?;
        let pack_check_info = read_be_at(buf, pos + 128, 8)?;
        let offset = read_be_at(buf, pos + 136, 8)?;
        proof {
            lemma_be_value_bound(buf@.subrange(pos + 136, pos + 144));
            lemma_pow256_values();
            assert(offset == be_value(buf@.subrange(pos + 136, pos + 144)));
        }
        let pack_pos = if offset != 0 {
            if 112 > blen - (pos + 144) {
                return Err(Error::UnexpectedEnd);
            }
            PackPos::Offset(offset)
        } else {
            if pos + 144 >= blen {
                return Err(Error::UnexpectedEnd);
            }
            let n = buf[pos + 144] as usize;
            if n > blen - (pos + 145) {
                return Err(Error::UnexpectedEnd);
            }
            if n > 111 {
                return Err(Error::InvalidFormat);
            }
            if 111 - n > blen - (pos + 145 + n) {
                return Err(Error::UnexpectedEnd);
            }
            let path = slice_subrange(buf, pos + 145, pos + 145 + n);
            if !valid_utf8(path) {
                return Err(Error::InvalidFormat);
            }
            PackPos::Path(slice_to_vec(path))
        };
        Ok(PackInfo { id, pack_id, free_data, pack_size, pack_check_info, pack_pos })
    }
}

/// The views of a sequence of pack information blocks.
pub open spec fn infos_view(v: Seq<PackInfo>) -> Seq<PackInfoV> {
    v.map_values(|p: PackInfo| p@)
}

/// The `n` pack information blocks stored one after the other from `pos` on.
pub open spec fn spec_pack_infos(s: Seq<u8>, pos: int, n: nat) -> Result<Seq<PackInfoV>, Error>
    decreases n,
{
    if n == 0 {
        Ok(Seq::empty())
    } else {
        match spec_pack_infos(s, pos, (n - 1) as nat) {
            Err(e) => Err(e),
            Ok(ps) => match spec_pack_info(s, pos + 256 * (n - 1)) {
                Err(e) => Err(e),
                Ok(p) => Ok(ps.push(p)),
            },
        }
    }
}

/// The main pack of a container.
#[derive(Debug)]
pub struct MainPack {
    header: MainPackHeader,
    data: Vec<u8>,
    directory_pack_info: PackInfo,
    pack_infos: Vec<PackInfo>,
}

/// The mathematical content of a [MainPack].
pub struct MainPackV {
    pub header: MainPackHeaderV,
    pub data: Seq<u8>,
    pub directory_pack_info: PackInfoV,
    pub pack_infos: Seq<PackInfoV>,
}

impl View for MainPack {
    type V = MainPackV;

    closed spec fn view(&self) -> MainPackV {
        MainPackV {
            header: self.header@,
            data: self.data@,
            directory_pack_info: self.directory_pack_info@,
            pack_infos: infos_view(self.pack_infos@),
        }
    }
}

/// The main pack that the bytes `s` hold: its header at 0, the information block of
/// the directory pack at 80, then those of the content packs.
pub open spec fn spec_main_pack(s: Seq<u8>) -> Result<MainPackV, Error> {
    match spec_main_pack_header(s, 0) {
        Err(e) => Err(e),
        Ok(header) => match spec_pack_info(s, 80) {
            Err(e) => Err(e),
            Ok(dir) => match spec_pack_infos(s, 336, header.pack_count as nat) {
                Err(e) => Err(e),
                Ok(infos) => Ok(MainPackV { header, data: s, directory_pack_info: dir, pack_infos: infos }),
            },
        },
    }
}

/// The first pack whose id is `pack_id`, by position among `infos`.
pub open spec fn first_with_id(infos: Seq<PackInfoV>, pack_id: u8, i: int) -> bool {
    0 <= i < infos.len() && infos[i].pack_id == pack_id && forall|j: int| 0 <= j < i ==> infos[j].pack_id != pack_id
}

impl MainPack {
    /// Reads the main pack held by `data`.
    pub fn new(data: Vec<u8>) -> (r: Result<MainPack, Error>)
        ensures
            match spec_main_pack(data@) {
                Ok(m) => (r matches Ok(rm) && rm@ == m),
                Err(e) => r matches Err(re) && re == e,
            },
    {
        let header = MainPackHeader::produce(data.as_slice(), 0)?;
        let directory_pack_info = PackInfo::produce(data.as_slice(), 80)?;
        let count = header.pack_count as usize;
        let mut pack_infos: Vec<PackInfo> = Vec::new();
        assert(infos_view(pack_infos@) =~= Seq::<PackInfoV>::empty());
        let mut i: usize = 0;
        while i < count
            invariant
                count == header.pack_count,
                spec_main_pack_header(data@, 0) == Ok::<MainPackHeaderV, Error>(header@),
                spec_pack_info(data@, 80) == Ok::<PackInfoV, Error>(directory_pack_info@),
                i <= count,
                spec_pack_infos(data@, 336, i as nat) == Ok::<Seq<PackInfoV>, Error>(infos_view(pack_infos@)),
            decreases count - i,
        {
            let info = match PackInfo::produce(data.as_slice(), 336 + 256 * i) {
                Ok(p) => p,
                Err(e) => {
                    proof {
                        assert(spec_pack_info(data@, 336 + 256 * i) == Err::<PackInfoV, Error>(e));
                        assert(spec_pack_infos(data@, 336, (i + 1) as nat) == Err::<Seq<PackInfoV>, Error>(e));
                        lemma_pack_infos_err(data@, 336, (i + 1) as nat, count as nat);
                    }
                    return Err(e);
                },
            };
            let ghost before = pack_infos@;
            pack_infos.push(info);
            proof {
                assert(infos_view(pack_infos@) =~= infos_view(before).push(info@));
            }
            i = i + 1;
        }
        Ok(MainPack { header, data, directory_pack_info, pack_infos })
    }

    /// The number of content packs.
    pub fn pack_count(&self) -> (r: u8)
        ensures
            r == self@.header.pack_count,
    {
        self.header.pack_count
    }

    /// What the main pack says of the directory pack.
    pub fn get_directory_pack_info(&self) -> (r: &PackInfo)
        ensures
            r@ == self@.directory_pack_info,
    {
        &self.directory_pack_info
    }

    /// What the main pack says of the content pack `pack_id`: the first of the id.
    pub fn get_content_pack_info(&self, pack_id: u8) -> (r: Result<&PackInfo, Error>)
        ensures
            r matches Ok(p) ==> exists|i: int| first_with_id(self@.pack_infos, pack_id, i) && p@ == self@.pack_infos[i],
            r is Err ==> r == Err::<&PackInfo, Error>(Error::Arg) && forall|j: int|
                0 <= j < self@.pack_infos.len() ==> self@.pack_infos[j].pack_id != pack_id,
    {
        let n = self.pack_infos.len();
        let mut i: usize = 0;
        while i < n
            invariant
                n == self.pack_infos@.len(),
                i <= n,
                forall|j: int| 0 <= j < i ==> self@.pack_infos[j].pack_id != pack_id,
            decreases n - i,
        {
            if self.pack_infos[i].pack_id == pack_id {
                assert(first_with_id(self@.pack_infos, pack_id, i as int));
                return Ok(&self.pack_infos[i]);
            }
            i = i + 1;
        }
        Err(Error::Arg)
    }

    /// The kind of the pack.
    pub fn kind(&self) -> (r: PackKind)
        ensures
            r == self@.header.pack_header.magic,
    {
        self.header.pack_header.magic
    }

    /// The id of the application that made the pack.
    pub fn app_vendor_id(&self) -> (r: u32)
        ensures
            r == self@.header.pack_header.app_vendor_id,
    {
        self.header.pack_header.app_vendor_id
    }

    /// The (major, minor) version of the pack.
    pub fn version(&self) -> (r: (u8, u8))
        ensures
            r == (self@.header.pack_header.major_version, self@.header.pack_header.minor_version),
    {
        (self.header.pack_header.major_version, self.header.pack_header.minor_version)
    }

    /// The UUID of the pack.
    pub fn uuid(&self) -> (r: [u8; 16])
        ensures
            r@ == self@.header.pack_header.uuid,
    {
        self.header.pack_header.uuid
    }

    /// The size of the pack.
    pub fn size(&self) -> (r: u64)
        ensures
            r == self@.header.pack_header.file_size,
    {
        self.header.pack_header.file_size
    }

    /// Whether the pack passes its check: the bytes before its check information, as the
    /// check stream gives them, hash to the stored hash.
    pub fn check(&self) -> (r: Result<bool, Error>)
        ensures
            match spec_check_info(self@.data, self@.header.pack_header.check_info_pos as int) {
                Err(e) => r == Err::<bool, Error>(e),
                Ok(None) => r == Ok::<bool, Error>(true),
                Ok(Some(h)) => r == Ok::<bool, Error>(
                    blake3_hash(
                        checked_bytes(
                            self@.data,
                            self@.header.pack_header.check_info_pos as int,
                            self@.header.pack_count,
                        ),
                    ) == h,
                ),
            },
    {
        let pos = self.header.pack_header.check_info_pos;
        let len = self.data.len();
        if pos >= len as u64 {
            return Err(Error::UnexpectedEnd);
        }
        let check_info = CheckInfo::produce(self.data.as_slice(), pos as usize)?;
        let source = slice_subrange(self.data.as_slice(), 0, pos as usize);
        let mut stream = CheckStream::new(source, self.header.pack_count);
        let checked = stream.read_all();
        proof {
            assert(source@ =~= self@.data.take(pos as int));
        }
        Ok(check_info.check(checked.as_slice()))
    }
}

proof fn lemma_pack_infos_err(s: Seq<u8>, pos: int, i: nat, n: nat)
    requires
        i <= n,
        spec_pack_infos(s, pos, i) is Err,
    ensures
        spec_pack_infos(s, pos, n) == spec_pack_infos(s, pos, i),
    decreases n - i,
{
    if i < n {
        lemma_pack_infos_err(s, pos, i, (n - 1) as nat);
    }
}

/// The first position past the pack information blocks of a main pack with
/// `pack_count` content packs (and one directory pack).
pub open spec fn safe_zone_of(pack_count: u8) -> int {
    64 + 256 * (pack_count + 1)
}

/// Whether position `p` lies in a masked zone: counting 256-byte blocks from byte 64 on,
/// the last 112 bytes of each block before `safe_zone` (bytes 208 + 256k to 320 + 256k),
/// which hold pack positions that change once the container is placed.
pub open spec fn in_masked_zone(p: int, safe_zone: int) -> bool {
    64 <= p < safe_zone && (p - 64) % 256 >= 144
}

/// The bytes `s` as the check sees them: the masked zones read as zeros.
pub open spec fn masked(s: Seq<u8>, safe_zone: int) -> Seq<u8> {
    Seq::new(s.len(), |p: int| if in_masked_zone(p, safe_zone) { 0u8 } else { s[p] })
}

/// The bytes that the check of a main pack with `pack_count` content packs hashes:
/// those before its check information, masked.
pub open spec fn checked_bytes(s: Seq<u8>, check_info_pos: int, pack_count: u8) -> Seq<u8> {
    masked(s.take(check_info_pos), safe_zone_of(pack_count))
}

/// The number of bytes a read of at most `max` bytes at `offset` gives, of a source of
/// `len` bytes: a read stops at the start and at the end of each masked zone, which
/// reads as zeros.
pub open spec fn check_read_len(offset: int, max: int, len: int, safe_zone: int) -> int {
    let avail = len - offset;
    let want = if offset < 64 {
        if max < 64 - offset { max } else { 64 - offset }
    } else if offset >= safe_zone {
        max
    } else if (offset - 64) % 256 < 144 {
        if max < 144 - (offset - 64) % 256 { max } else { 144 - (offset - 64) % 256 }
    } else {
        if max < 256 - (offset - 64) % 256 { max } else { 256 - (offset - 64) % 256 }
    };
    if want < avail { want } else if avail < 0 { 0 } else { avail }
}

/// Within one 256-byte block, the local offset of a later position is the local offset
/// of the earlier one plus the distance.
proof fn lemma_local_offset(offset: int, j: int)
    requires
        offset >= 64,
        0 <= j,
        (offset - 64) % 256 + j < 256,
    ensures
        (offset + j - 64) % 256 == (offset - 64) % 256 + j,
        (offset + j - 64) / 256 == (offset - 64) / 256,
{
    let q = (offset - 64) / 256;
    let l = (offset - 64) % 256;
    assert(offset - 64 == 256 * q + l);
    assert((256 * q + (l + j)) % 256 == l + j && (256 * q + (l + j)) / 256 == q) by (nonlinear_arith)
        requires
            0 <= l + j < 256,
    ;
}

/// A reader of the bytes of a main pack that the check covers: the masked zones of the
/// pack information blocks read as zeros.
pub struct CheckStream<'a> {
    source: &'a [u8],
    offset: usize,
    start_safe_zone: u64,
}

impl<'a> CheckStream<'a> {
    /// The safe zone starts at a block boundary after the header.
    #[verifier::type_invariant]
    closed spec fn zone_aligned(&self) -> bool {
        self.start_safe_zone >= 64 && (self.start_safe_zone - 64) % 256 == 0
    }

    pub closed spec fn spec_source(&self) -> Seq<u8> {
        self.source@
    }

    pub closed spec fn spec_offset(&self) -> nat {
        self.offset as nat
    }

    pub closed spec fn spec_safe_zone(&self) -> nat {
        self.start_safe_zone as nat
    }

    /// The check stream over `source`, the bytes of a main pack with `pack_count`
    /// content packs.
    pub fn new(source: &'a [u8], pack_count: u8) -> (r: CheckStream<'a>)
        ensures
            r.spec_source() == source@,
            r.spec_offset() == 0,
            r.spec_safe_zone() == safe_zone_of(pack_count),
    {
        let start_safe_zone = 64 + 256 * (pack_count as u64 + 1);
        assert((256 * (pack_count as u64 + 1)) % 256 == 0) by (nonlinear_arith);
        CheckStream { source, offset: 0, start_safe_zone }
    }

    /// Reads at most `max` bytes; an empty result ends the stream.
    pub fn read(&mut self, max: usize) -> (r: Vec<u8>)
        requires
            old(self).spec_offset() <= old(self).spec_source().len(),
        ensures
            final(self).spec_source() == old(self).spec_source(),
            final(self).spec_safe_zone() == old(self).spec_safe_zone(),
            r@.len() == check_read_len(
                old(self).spec_offset() as int,
                max as int,
                old(self).spec_source().len() as int,
                old(self).spec_safe_zone() as int,
            ),
            final(self).spec_offset() == old(self).spec_offset() + r@.len(),
            r@ == masked(old(self).spec_source(), old(self).spec_safe_zone() as int).subrange(
                old(self).spec_offset() as int,
                final(self).spec_offset() as int,
            ),
    {
        proof {
            use_type_invariant(&*self);
        }
        let ghost src = self.source@;
        let ghost safe = self.start_safe_zone as int;
        let len = self.source.len();
        let offset = self.offset as u64;
        let mut zone = false;
        let want: usize = if offset < 64 {
            let room = (64 - offset) as usize;
            if max < room { max } else { room }
        } else if offset >= self.start_safe_zone {
            max
        } else {
            let local = ((offset - 64) % 256) as usize;
            if local < 144 {
                if max < 144 - local { max } else { 144 - local }
            } else {
                zone = true;
                if max < 256 - local { max } else { 256 - local }
            }
        };
        let avail = len - self.offset;
        let size = if want < avail { want } else { avail };
        let start = self.offset;
        let chunk = if zone {
            let mut zeros: Vec<u8> = Vec::new();
            let mut i: usize = 0;
            while i < size
                invariant
                    i <= size,
                    zeros@.len() == i,
                    forall|j: int| 0 <= j < i ==> zeros@[j] == 0u8,
                decreases size - i,
            {
                zeros.push(0u8);
                i = i + 1;
            }
            zeros
        } else {
            slice_to_vec(slice_subrange(self.source, start, start + size))
        };
        proof {
            let m = masked(src, safe);
            assert forall|j: int| 0 <= j < size implies chunk@[j] == m[start + j] by {
                let p = start + j;
                if start >= 64 && (start as int) < safe {
                    let l = (start - 64) % 256;
                    if l >= 144 {
                        lemma_local_offset(start as int, j);
                        assert((start - 64) / 256 < (safe - 64) / 256) by (nonlinear_arith)
                            requires
                                start - 64 == 256 * ((start - 64) / 256) + l,
                                0 <= l < 256,
                                (safe - 64) % 256 == 0,
                                safe >= 64,
                                start < safe,
                        ;
                        assert(p - 64 == 256 * ((start - 64) / 256) + (l + j));
                        assert(p < safe);
                        assert(in_masked_zone(p, safe));
                    } else {
                        lemma_local_offset(start as int, j);
                        assert(!in_masked_zone(p, safe));
                    }
                } else if start < 64 {
                    assert(!in_masked_zone(p, safe));
                } else {
                    assert(!in_masked_zone(p, safe));
                }
            }
            assert(chunk@ =~= m.subrange(start as int, start + size));
        }
        *self = CheckStream { source: self.source, offset: self.offset + size, start_safe_zone: self.start_safe_zone };
        chunk
    }

    /// Reads the stream to its end, as `std::io::copy` does: 8 KiB at a time, until a
    /// read gives nothing. The result is the whole source, masked.
    pub fn read_all(&mut self) -> (r: Vec<u8>)
        requires
            old(self).spec_offset() == 0,
        ensures
            r@ == masked(old(self).spec_source(), old(self).spec_safe_zone() as int),
    {
        let ghost src = self.spec_source();
        let ghost safe = self.spec_safe_zone() as int;
        let mut out: Vec<u8> = Vec::new();
        loop
            invariant
                self.spec_source() == src,
                self.spec_safe_zone() == safe,
                old(self).spec_source() == src,
                old(self).spec_safe_zone() == safe,
                self.spec_offset() <= src.len(),
                out@ == masked(src, safe).take(self.spec_offset() as int),
            decreases src.len() - self.spec_offset(),
        {
            let ghost before = self.spec_offset();
            let mut chunk = self.read(8192);
            proof {
                assert(masked(src, safe).take(self.spec_offset() as int) =~= masked(src, safe).take(before as int)
                    + chunk@);
            }
            if chunk.len() == 0 {
                proof {
                    if before < src.len() {
                        assert(check_read_len(before as int, 8192, src.len() as int, safe) > 0);
                    }
                    assert(masked(src, safe).take(src.len() as int) =~= masked(src, safe));
                }
                return out;
            }
            out.append(&mut chunk);
        }
    }
}

} // verus!
