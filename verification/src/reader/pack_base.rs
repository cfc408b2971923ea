//! The header shared by the directory and content packs: the same fields as a pack
//! header, with the sizes stored least significant byte first.
use crate::bases::{in_bounds, read_uint_at, spec_uint_at};
use crate::error::Error;
use crate::pack::{spec_pack_kind, PackKind};
use vstd::prelude::*;

verus! {

/// The 64-byte header of a directory or content pack.
#[derive(Debug, Clone, Copy, PartialEq, Eq)]
pub struct PackBase {
    pub magic: PackKind,
    pub app_vendor_id: [u8; 4],
    pub major_version: u8,
    pub minor_version: u8,
    pub uuid: [u8; 16],
    pub file_size: u64,
    pub check_info_pos: u64,
}

/// The mathematical content of a [PackBase].
pub struct PackBaseV {
    pub magic: PackKind,
    pub app_vendor_id: Seq<u8>,
    pub major_version: u8,
    pub minor_version: u8,
    pub uuid: Seq<u8>,
    pub file_size: u64,
    pub check_info_pos: u64,
}

impl View for PackBase {
    type V = PackBaseV;

    open spec fn view(&self) -> PackBaseV {
        PackBaseV {
            magic: self.magic,
            app_vendor_id: self.app_vendor_id@,
            major_version: self.major_version,
            minor_version: self.minor_version,
            uuid: self.uuid@,
            file_size: self.file_size,
            check_info_pos: self.check_info_pos,
        }
    }
}

/// The header at the start of `s`: the magic number, the vendor id (4 bytes), the two
/// version bytes, the UUID (16 bytes), 6 bytes of flags and padding, the file size and
/// the position of the check information (8 bytes each, little-endian), then bytes
/// that are not read, up to 64.
pub open spec fn spec_pack_base(s: Seq<u8>) -> Result<PackBaseV, Error> {
    match spec_pack_kind(s, 0) {
        Err(e) => Err(e),
        Ok(magic) => if !in_bounds(s, 0, 64) {
            Err(Error::UnexpectedEnd)
        } else {
            Ok(
                PackBaseV {
                    magic,
                    app_vendor_id: s.subrange(4, 8),
                    major_version: s[8],
                    minor_version: s[9],
                    uuid: s.subrange(10, 26),
                    file_size: spec_uint_at(s, 32, 8).unwrap(),
                    check_info_pos: spec_uint_at(s, 40, 8).unwrap(),
                },
            )
        },
    }
}

/// Copies the `N` bytes at `pos`.
pub(crate) fn copy_bytes_at<const N: usize>(buf: &[u8], pos: usize) -> (r: [u8; N])
    requires
        pos + N <= buf@.len(),
    ensures
        r@ == buf@.subrange(pos as int, pos + N),
{
    let blen = buf.len();
    let mut a = [0u8; N];
    let mut i: usize = 0;
    while i < N
        invariant
            blen == buf@.len(),
            pos + N <= buf@.len(),
            i <= N,
            a@.len() == N,
            forall|j: int| 0 <= j < i ==> a@[j] == buf@[pos + j],
        decreases N - i,
    {
        a.set(i, buf[pos + i]);
        i = i + 1;
    }
    assert(a@ =~= buf@.subrange(pos as int, pos + N));
    a
}

impl PackBase {
    /// Reads the header at the start of `buf`.
    pub fn produce(buf: &[u8]) -> (r: Result<PackBase, Error>)
        ensures
            match spec_pack_base(buf@) {
                Ok(h) => (r matches Ok(rh) && rh@ == h),
                Err(e) => r == Err::<PackBase, Error>(e),
            },
    {
        let magic = PackKind::produce(buf, 0)?;
        if buf.len() < 64 {
            return Err(Error::UnexpectedEnd);
        }
        let app_vendor_id: [u8; 4] = copy_bytes_at(buf, 4);
        let uuid: [u8; 16] = copy_bytes_at(buf, 10);
        let file_size = read_uint_at(buf, 32, 8)?;
        let check_info_pos = read_uint_at(buf, 40, 8)?;
        Ok(
            PackBase {
                magic,
                app_vendor_id,
                major_version: buf[8],
                minor_version: buf[9],
                uuid,
                file_size,
                check_info_pos,
            },
        )
    }
}

} // verus!
