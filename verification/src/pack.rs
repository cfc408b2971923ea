//! Packs: the files of a Jubako container and their 64-byte headers.
//!
//! Integers of the pack headers are stored most significant byte first.
use crate::assoc::bytes_eq;
use crate::bases::in_bounds;
use crate::error::Error;
use crate::ints::{be_value, lemma_be_value_bound, lemma_pow256_values, pow256};
use crate::primitive::{be_bytes, lemma_be_bytes, read_be_at, spec_be_at, write_be};
use vstd::prelude::*;
use vstd::slice::slice_subrange;

verus! {

/// The kind of a pack, from its magic number.
#[derive(Debug, Clone, Copy, PartialEq, Eq, Structural)]
pub enum PackKind {
    Main,
    Directory,
    Content,
}

/// The magic number of each kind of pack: "jbkm", "jbkd" and "jbkc".
pub open spec fn pack_magic(k: PackKind) -> u32 {
    match k {
        PackKind::Main => 0x6a_62_6b_6d,
        PackKind::Directory => 0x6a_62_6b_64,
        PackKind::Content => 0x6a_62_6b_63,
    }
}

/// The kind of pack whose magic number is stored at `pos`.
pub open spec fn spec_pack_kind(s: Seq<u8>, pos: int) -> Result<PackKind, Error> {
    match spec_be_at(s, pos, 4) {
        Err(e) => Err(e),
        Ok(m) => if m == 0x6a_62_6b_6d {
            Ok(PackKind::Main)
        } else if m == 0x6a_62_6b_64 {
            Ok(PackKind::Directory)
        } else if m == 0x6a_62_6b_63 {
            Ok(PackKind::Content)
        } else {
            Err(Error::InvalidFormat)
        },
    }
}

impl PackKind {
    /// Reads the kind of pack whose magic number is stored at `pos`.
    pub fn produce(buf: &[u8], pos: usize) -> (r: Result<PackKind, Error>)
        ensures
            r == spec_pack_kind(buf@, pos as int),
    {
        let m = read_be_at(buf, pos, 4)?;
        if m == 0x6a_62_6b_6d {
            Ok(PackKind::Main)
        } else if m == 0x6a_62_6b_64 {
            Ok(PackKind::Directory)
        } else if m == 0x6a_62_6b_63 {
            Ok(PackKind::Content)
        } else {
            Err(Error::InvalidFormat)
        }
    }

    /// Appends the magic number of the kind.
    pub fn write(&self, out: &mut Vec<u8>)
        ensures
            final(out)@ == old(out)@ + be_bytes(pack_magic(*self) as nat, 4),
    {
        let m: u64 = match self {
            PackKind::Main => 0x6a_62_6b_6d,
            PackKind::Directory => 0x6a_62_6b_64,
            PackKind::Content => 0x6a_62_6b_63,
        };
        write_be(out, m, 4);
    }
}

/// How a pack is checked.
#[derive(Debug, Clone, Copy, PartialEq, Eq, Structural)]
pub enum CheckKind {
    NoCheck,
    Blake3,
}

/// The check kind stored at `pos`: 0 for none, 1 for blake3.
pub open spec fn spec_check_kind(s: Seq<u8>, pos: int) -> Result<CheckKind, Error> {
    if !in_bounds(s, pos, 1) {
        Err(Error::UnexpectedEnd)
    } else if s[pos] == 0 {
        Ok(CheckKind::NoCheck)
    } else if s[pos] == 1 {
        Ok(CheckKind::Blake3)
    } else {
        Err(Error::InvalidFormat)
    }
}

impl CheckKind {
    /// Reads the check kind stored at `pos`.
    pub fn produce(buf: &[u8], pos: usize) -> (r: Result<CheckKind, Error>)
        ensures
            r == spec_check_kind(buf@, pos as int),
    {
        if pos >= buf.len() {
            return Err(Error::UnexpectedEnd);
        }
        let k = buf[pos];
        if k == 0 {
            Ok(CheckKind::NoCheck)
        } else if k == 1 {
            Ok(CheckKind::Blake3)
        } else {
            Err(Error::InvalidFormat)
        }
    }

    /// Appends the byte of the check kind.
    pub fn write(&self, out: &mut Vec<u8>)
        ensures
            final(out)@ == old(out)@.push(check_kind_byte(*self)),
    {
        let k: u8 = match self {
            CheckKind::NoCheck => 0,
            CheckKind::Blake3 => 1,
        };
        out.push(k);
    }
}

/// The blake3 hash of some bytes.
pub uninterp spec fn blake3_hash(data: Seq<u8>) -> Seq<u8>;

/// `blake3::hash` of the blake3 crate: the 32-byte hash of the bytes.
#[verifier::external_body]
fn b3_hash(data: &[u8]) -> (r: [u8; 32])
    ensures
        r@ == blake3_hash(data@),
{
    *blake3::hash(data).as_bytes()
}

/// What a pack is checked with: a blake3 hash, or nothing.
#[derive(Debug, Clone, Copy)]
pub struct CheckInfo {
    b3hash: Option<[u8; 32]>,
}

/// The hash of a [CheckInfo], as bytes.
pub open spec fn check_hash(h: Option<[u8; 32]>) -> Option<Seq<u8>> {
    match h {
        None => None,
        Some(x) => Some(x@),
    }
}

/// The check information stored at `pos`: the check kind, followed by the 32 bytes of
/// the hash for a blake3 check.
pub open spec fn spec_check_info(s: Seq<u8>, pos: int) -> Result<Option<Seq<u8>>, Error> {
    match spec_check_kind(s, pos) {
        Err(e) => Err(e),
        Ok(CheckKind::NoCheck) => Ok(None),
        Ok(CheckKind::Blake3) => if in_bounds(s, pos + 1, 32) {
            Ok(Some(s.subrange(pos + 1, pos + 33)))
        } else {
            Err(Error::UnexpectedEnd)
        },
    }
}

impl CheckInfo {
    /// The hash the pack is checked with, if any.
    pub closed spec fn hash(&self) -> Option<Seq<u8>> {
        check_hash(self.b3hash)
    }

    /// Reads the check information stored at `pos`.
    pub fn produce(buf: &[u8], pos: usize) -> (r: Result<CheckInfo, Error>)
        ensures
            match spec_check_info(buf@, pos as int) {
                Ok(h) => (r matches Ok(c) && c.hash() == h),
                Err(e) => r == Err::<CheckInfo, Error>(e),
            },
    {
        let blen = buf.len();
        let kind = CheckKind::produce(buf, pos)?;
        match kind {
            CheckKind::NoCheck => Ok(CheckInfo { b3hash: None }),
            CheckKind::Blake3 => {
                let start = pos + 1;
                if 32 > buf.len() - start {
                    return Err(Error::UnexpectedEnd);
                }
                let mut h = [0u8; 32];
                let mut i: usize = 0;
                while i < 32
                    invariant
                        blen == buf@.len(),
                        start + 32 <= buf@.len(),
                        i <= 32,
                        h@.len() == 32,
                        forall|j: int| 0 <= j < i ==> h@[j] == buf@[start + j],
                    decreases 32 - i,
                {
                    h[i] = buf[start + i];
                    i = i + 1;
                }
                assert(h@ =~= buf@.subrange(pos + 1, pos + 33));
                Ok(CheckInfo { b3hash: Some(h) })
            },
        }
    }

    /// Whether `data` passes the check: its hash is the stored one, if one is stored.
    pub fn check(&self, data: &[u8]) -> (r: bool)
        ensures
            r == match self.hash() {
                None => true,
                Some(h) => blake3_hash(data@) == h,
            },
    {
        match &self.b3hash {
            None => true,
            Some(h) => {
                let computed = b3_hash(data);
                bytes_eq(&computed, h)
            },
        }
    }
}

/// What a pack header takes from the one who makes the pack.
pub struct PackHeaderInfo {
    pub app_vendor_id: u32,
    pub file_size: u64,
    pub check_info_pos: u64,
}

impl PackHeaderInfo {
    pub fn new(app_vendor_id: u32, file_size: u64, check_info_pos: u64) -> (r: PackHeaderInfo)
        ensures
            r.app_vendor_id == app_vendor_id,
            r.file_size == file_size,
            r.check_info_pos == check_info_pos,
    {
        PackHeaderInfo { app_vendor_id, file_size, check_info_pos }
    }
}

/// `Uuid::new_v4` of the uuid crate: a random version 4 UUID, as its bytes. Its version
/// (4, in the high half of byte 6) and variant (binary 10, in the top bits of byte 8)
/// are fixed; the other bits are random and nothing is stated of them.
#[verifier::external_body]
fn random_uuid() -> (r: [u8; 16])
    ensures
        r@[6] / 16 == 4,
        r@[8] / 64 == 2,
{
    *uuid::Uuid::new_v4().as_bytes()
}

/// The header of a pack.
#[derive(Debug, Clone, Copy, PartialEq, Eq)]
pub struct PackHeader {
    pub magic: PackKind,
    pub app_vendor_id: u32,
    pub major_version: u8,
    pub minor_version: u8,
    pub uuid: [u8; 16],
    pub file_size: u64,
    pub check_info_pos: u64,
}

/// The mathematical content of a [PackHeader].
pub struct PackHeaderV {
    pub magic: PackKind,
    pub app_vendor_id: u32,
    pub major_version: u8,
    pub minor_version: u8,
    pub uuid: Seq<u8>,
    pub file_size: u64,
    pub check_info_pos: u64,
}

impl View for PackHeader {
    type V = PackHeaderV;

    open spec fn view(&self) -> PackHeaderV {
        PackHeaderV {
            magic: self.magic,
            app_vendor_id: self.app_vendor_id,
            major_version: self.major_version,
            minor_version: self.minor_version,
            uuid: self.uuid@,
            file_size: self.file_size,
            check_info_pos: self.check_info_pos,
        }
    }
}

/// The 64 bytes of a pack header: the magic number, the vendor id, the two version
/// bytes, the 16 bytes of the UUID, 6 bytes of padding, the file size, the position of
/// the check information and 16 bytes of padding.
pub open spec fn pack_header_bytes(h: PackHeaderV) -> Seq<u8> {
    be_bytes(pack_magic(h.magic) as nat, 4) + be_bytes(h.app_vendor_id as nat, 4) + seq![h.major_version]
        + seq![h.minor_version] + h.uuid + Seq::new(6, |i: int| 0u8) + be_bytes(h.file_size as nat, 8)
        + be_bytes(h.check_info_pos as nat, 8) + Seq::new(16, |i: int| 0u8)
}

/// The pack header stored at `pos`; the padding bytes are not read.
pub open spec fn spec_pack_header(s: Seq<u8>, pos: int) -> Result<PackHeaderV, Error> {
    match spec_pack_kind(s, pos) {
        Err(e) => Err(e),
        Ok(magic) => if !in_bounds(s, pos, 64) {
            Err(Error::UnexpectedEnd)
        } else {
            Ok(
                PackHeaderV {
                    magic,
                    app_vendor_id: be_value(s.subrange(pos + 4, pos + 8)) as u32,
                    major_version: s[pos + 8],
                    minor_version: s[pos + 9],
                    uuid: s.subrange(pos + 10, pos + 26),
                    file_size: be_value(s.subrange(pos + 32, pos + 40)) as u64,
                    check_info_pos: be_value(s.subrange(pos + 40, pos + 48)) as u64,
                },
            )
        },
    }
}

/// Copies the 16 bytes at `pos`.
fn read_uuid(buf: &[u8], pos: usize) -> (r: [u8; 16])
    requires
        pos + 16 <= buf@.len(),
    ensures
        r@ == buf@.subrange(pos as int, pos + 16),
{
    let blen = buf.len();
    let mut u = [0u8; 16];
    let mut i: usize = 0;
    while i < 16
        invariant
            blen == buf@.len(),
            pos + 16 <= buf@.len(),
            i <= 16,
            u@.len() == 16,
            forall|j: int| 0 <= j < i ==> u@[j] == buf@[pos + j],
        decreases 16 - i,
    {
        u[i] = buf[pos + i];
        i = i + 1;
    }
    assert(u@ =~= buf@.subrange(pos as int, pos + 16));
    u
}

impl PackHeader {
    /// The header of a new pack of kind `magic`, version 0.0, with a new random UUID.
    pub fn new(magic: PackKind, pack_info: PackHeaderInfo) -> (r: PackHeader)
        ensures
            r.magic == magic,
            r.major_version == 0,
            r.minor_version == 0,
            r.app_vendor_id == pack_info.app_vendor_id,
            r.file_size == pack_info.file_size,
            r.check_info_pos == pack_info.check_info_pos,
            r.uuid@[6] / 16 == 4,
            r.uuid@[8] / 64 == 2,
    {
        PackHeader {
            magic,
            major_version: 0,
            minor_version: 0,
            uuid: random_uuid(),
            app_vendor_id: pack_info.app_vendor_id,
            file_size: pack_info.file_size,
            check_info_pos: pack_info.check_info_pos,
        }
    }

    /// Reads the pack header stored at `pos`.
    pub fn produce(buf: &[u8], pos: usize) -> (r: Result<PackHeader, Error>)
        ensures
            match spec_pack_header(buf@, pos as int) {
                Ok(h) => (r matches Ok(rh) && rh@ == h),
                Err(e) => r == Err::<PackHeader, Error>(e),
            },
    {
        let magic = PackKind::produce(buf, pos)?;
        if 64 > buf.len() - pos {
            return Err(Error::UnexpectedEnd);
        }
        proof {
            lemma_be_value_bound(buf@.subrange(pos + 4, pos + 8));
            lemma_pow256_values();
        }
        let app_vendor_id = read_be_at(buf, pos + 4, 4)?;
        let major_version = buf[pos + 8];
        let minor_version = buf[pos + 9];
        let uuid = read_uuid(buf, pos + 10);
        let file_size = read_be_at(buf, pos + 32, 8)?;
        let check_info_pos = read_be_at(buf, pos + 40, 8)?;
        Ok(
            PackHeader {
                magic,
                app_vendor_id: app_vendor_id as u32,
                major_version,
                minor_version,
                uuid,
                file_size,
                check_info_pos,
            },
        )
    }

    /// Appends the 64 bytes of the header.
    pub fn write(&self, out: &mut Vec<u8>)
        ensures
            final(out)@ == old(out)@ + pack_header_bytes(self@),
    {
        let ghost start = out@;
        self.magic.write(out);
        write_be(out, self.app_vendor_id as u64, 4);
        out.push(self.major_version);
        out.push(self.minor_version);
        let mut i: usize = 0;
        let ghost before_uuid = out@;
        while i < 16
            invariant
                i <= 16,
                self.uuid@.len() == 16,
                out@ == before_uuid + self.uuid@.take(i as int),
            decreases 16 - i,
        {
            out.push(self.uuid[i]);
            assert(self.uuid@.take(i + 1) =~= self.uuid@.take(i as int).push(self.uuid@[i as int]));
            i = i + 1;
        }
        let ghost before_pad = out@;
        let mut j: usize = 0;
        while j < 6
            invariant
                j <= 6,
                out@ == before_pad + Seq::new(j as nat, |k: int| 0u8),
            decreases 6 - j,
        {
            out.push(0u8);
            assert(Seq::new((j + 1) as nat, |k: int| 0u8) =~= Seq::new(j as nat, |k: int| 0u8).push(0u8));
            j = j + 1;
        }
        write_be(out, self.file_size, 8);
        write_be(out, self.check_info_pos, 8);
        let ghost before_end = out@;
        let mut k: usize = 0;
        while k < 16
            invariant
                k <= 16,
                out@ == before_end + Seq::new(k as nat, |x: int| 0u8),
            decreases 16 - k,
        {
            out.push(0u8);
            assert(Seq::new((k + 1) as nat, |x: int| 0u8) =~= Seq::new(k as nat, |x: int| 0u8).push(0u8));
            k = k + 1;
        }
        assert(self.uuid@.take(16) =~= self.uuid@);
        assert(out@ =~= start + pack_header_bytes(self@));
    }
}

/// Reading back the written magic number of a pack kind gives that kind.
pub proof fn lemma_pack_kind_roundtrip(k: PackKind)
    ensures
        spec_pack_kind(be_bytes(pack_magic(k) as nat, 4), 0) == Ok::<PackKind, Error>(k),
{
    lemma_pow256_values();
    lemma_be_bytes(pack_magic(k) as nat, 4);
    assert(be_bytes(pack_magic(k) as nat, 4).subrange(0, 4) =~= be_bytes(pack_magic(k) as nat, 4));
}

/// The byte written for a check kind.
pub open spec fn check_kind_byte(k: CheckKind) -> u8 {
    match k {
        CheckKind::NoCheck => 0u8,
        CheckKind::Blake3 => 1u8,
    }
}

/// Reading back the written byte of a check kind gives that kind.
pub proof fn lemma_check_kind_roundtrip(k: CheckKind)
    ensures
        spec_check_kind(seq![check_kind_byte(k)], 0) == Ok::<CheckKind, Error>(k),
{
}

/// Reading back a written pack header gives the header: writing loses nothing.
pub proof fn lemma_pack_header_roundtrip(h: PackHeaderV)
    requires
        h.uuid.len() == 16,
    ensures
        pack_header_bytes(h).len() == 64,
        spec_pack_header(pack_header_bytes(h), 0) == Ok::<PackHeaderV, Error>(h),
{
    lemma_pow256_values();
    lemma_be_bytes(pack_magic(h.magic) as nat, 4);
    lemma_be_bytes(h.app_vendor_id as nat, 4);
    lemma_be_bytes(h.file_size as nat, 8);
    lemma_be_bytes(h.check_info_pos as nat, 8);
    let s = pack_header_bytes(h);
    assert(s.subrange(0, 4) =~= be_bytes(pack_magic(h.magic) as nat, 4));
    assert(s.subrange(4, 8) =~= be_bytes(h.app_vendor_id as nat, 4));
    assert(s.subrange(10, 26) =~= h.uuid);
    assert(s.subrange(32, 40) =~= be_bytes(h.file_size as nat, 8));
    assert(s.subrange(40, 48) =~= be_bytes(h.check_info_pos as nat, 8));
    assert(s[8] == h.major_version);
    assert(s[9] == h.minor_version);
}

} // verus!
