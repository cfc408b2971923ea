//! Container packs, which hold other packs in one file, and finding the pack that the
//! bytes of a file hold.
use super::byte_region::ByteRegion;
use super::pack_base::copy_bytes_at;
use crate::assoc::bytes_eq;
use crate::bases::{in_bounds, le_at, read_uint_at};
use crate::directory_pack::builder::le_read_uint;
use crate::error::Error;
use crate::primitive::{read_be_at, spec_be_at};
use vstd::prelude::*;
use vstd::slice::slice_subrange;

verus! {

/// The kind of a pack, among all the kinds of packs a container holds.
#[derive(Debug, Clone, Copy, PartialEq, Eq, Structural)]
pub enum FullPackKind {
    Manifest,
    Directory,
    Content,
    Container,
}

/// The kind of pack whose magic number is stored at `pos`: "jbkm" (a manifest pack),
/// "jbkd" (a directory pack), "jbkc" (a content pack) or "jbkC" (a container pack).
pub open spec fn spec_full_pack_kind(s: Seq<u8>, pos: int) -> Result<FullPackKind, Error> {
    match spec_be_at(s, pos, 4) {
        Err(e) => Err(e),
        Ok(m) => if m == 0x6a_62_6b_6d {
            Ok(FullPackKind::Manifest)
        } else if m == 0x6a_62_6b_64 {
            Ok(FullPackKind::Directory)
        } else if m == 0x6a_62_6b_63 {
            Ok(FullPackKind::Content)
        } else if m == 0x6a_62_6b_43 {
            Ok(FullPackKind::Container)
        } else {
            Err(Error::InvalidFormat)
        },
    }
}

impl FullPackKind {
    /// Reads the kind of pack whose magic number is stored at `pos`.
    pub fn produce(buf: &[u8], pos: usize) -> (r: Result<FullPackKind, Error>)
        ensures
            r == spec_full_pack_kind(buf@, pos as int),
    {
        let m = read_be_at(buf, pos, 4)?;
        if m == 0x6a_62_6b_6d {
            Ok(FullPackKind::Manifest)
        } else if m == 0x6a_62_6b_64 {
            Ok(FullPackKind::Directory)
        } else if m == 0x6a_62_6b_63 {
            Ok(FullPackKind::Content)
        } else if m == 0x6a_62_6b_43 {
            Ok(FullPackKind::Container)
        } else {
            Err(Error::InvalidFormat)
        }
    }
}

/// What the 64 bytes `b` that start a pack say of it: its kind and its size. A container
/// pack stores its size at byte 8, a manifest pack at byte 32 (8 bytes, little-endian);
/// directory and content packs give none (0).
pub open spec fn spec_parse_header(b: Seq<u8>) -> Result<(FullPackKind, u64), Error> {
    match spec_full_pack_kind(b, 0) {
        Err(e) => Err(e),
        Ok(k) => match k {
            FullPackKind::Container => Ok((k, le_at(b, 8, 8) as u64)),
            FullPackKind::Manifest => Ok((k, le_at(b, 32, 8) as u64)),
            _ => Ok((k, 0u64)),
        },
    }
}

/// The kind and the size of the pack whose first 64 bytes are `buffer`.
pub fn parse_header(buffer: &[u8; 64]) -> (r: Result<(FullPackKind, u64), Error>)
    ensures
        r == spec_parse_header(buffer@),
{
    let buf = buffer.as_slice();
    let kind = FullPackKind::produce(buf, 0)?;
    match kind {
        FullPackKind::Container => {
            let size = le_read_uint(slice_subrange(buf, 8, 16), 8);
            assert(buf@.subrange(8, 16).subrange(0, 8) =~= buf@.subrange(8, 16));
            Ok((kind, size))
        },
        FullPackKind::Manifest => {
            let size = le_read_uint(slice_subrange(buf, 32, 40), 8);
            assert(buf@.subrange(32, 40).subrange(0, 8) =~= buf@.subrange(32, 40));
            Ok((kind, size))
        },
        _ => Ok((kind, 0)),
    }
}

/// The last 64 bytes of `s`, from the last one backwards.
pub open spec fn last_reversed(s: Seq<u8>) -> Seq<u8> {
    Seq::new(64, |i: int| s[s.len() - 1 - i])
}

/// Where the pack that the bytes `s` hold lies: its kind, its offset and its size, and the
/// 64 bytes its header was read from. The header is looked for at the start of `s`; when
/// it is not a pack header there, at the end, written backwards, and the pack then ends
/// with `s` (a size larger than `s` is an error).
pub open spec fn spec_pack_place(s: Seq<u8>) -> Result<(FullPackKind, u64, u64, Seq<u8>), Error> {
    if s.len() < 64 {
        Err(Error::UnexpectedEnd)
    } else {
        match spec_parse_header(s.subrange(0, 64)) {
            Ok((k, size)) => Ok((k, 0u64, size, s.subrange(0, 64))),
            Err(_) => match spec_parse_header(last_reversed(s)) {
                Err(e) => Err(e),
                Ok((k, size)) => if size > s.len() {
                    Err(Error::InvalidFormat)
                } else {
                    Ok((k, (s.len() - size) as u64, size, last_reversed(s)))
                },
            },
        }
    }
}

/// Finds the header of the pack that `region` holds: its kind, offset, size and the 64
/// bytes it was read from.
pub fn locate_pack_header(region: &ByteRegion) -> (r: Result<(FullPackKind, u64, u64, [u8; 64]), Error>)
    ensures
        match spec_pack_place(region@) {
            Ok((k, o, s, h)) => (r matches Ok(x) && x.0 == k && x.1 == o && x.2 == s && x.3@ == h),
            Err(e) => (r matches Err(x) && x == e),
        },
{
    let n = region.size();
    if n < 64 {
        return Err(Error::UnexpectedEnd);
    }
    let buf = match region.get_slice(0, n) {
        Ok(b) => b,
        Err(e) => return Err(e),
    };
    assert(buf@ =~= region@);
    let head: [u8; 64] = copy_bytes_at(buf, 0);
    match parse_header(&head) {
        Ok((k, size)) => Ok((k, 0, size, head)),
        Err(_) => {
            let len = buf.len();
            let mut tail = [0u8; 64];
            let mut i: usize = 0;
            while i < 64
                invariant
                    len == buf@.len(),
                    len >= 64,
                    i <= 64,
                    tail@.len() == 64,
                    forall|j: int| 0 <= j < i ==> tail@[j] == buf@[len - 1 - j],
                decreases 64 - i,
            {
                tail.set(i, buf[len - 1 - i]);
                i = i + 1;
            }
            assert(tail@ =~= last_reversed(buf@));
            let (k, size) = parse_header(&tail)?;
            if size > n {
                Err(Error::InvalidFormat)
            } else {
                Ok((k, n - size, size, tail))
            }
        },
    }
}

/// The mathematical content of a [ContainerPack]: the uuids of its pack locators, in
/// order, and its packs (uuid and bytes), no uuid twice.
pub struct ContainerPackV {
    pub packs_uuid: Seq<Seq<u8>>,
    pub packs: Seq<(Seq<u8>, Seq<u8>)>,
}

/// Whether no uuid names two packs.
pub open spec fn uuids_unique(ps: Seq<(Seq<u8>, Seq<u8>)>) -> bool {
    forall|i: int, j: int| 0 <= i < j < ps.len() ==> #[trigger] ps[i].0 != #[trigger] ps[j].0
}

/// The packs `ps` after the pack `b` named `u` is stored: it takes the place of the pack
/// of that uuid, if there is one, else it comes last.
pub open spec fn spec_insert_pack(ps: Seq<(Seq<u8>, Seq<u8>)>, u: Seq<u8>, b: Seq<u8>) -> Seq<(Seq<u8>, Seq<u8>)> {
    if exists|i: int| 0 <= i < ps.len() && ps[i].0 == u {
        ps.update(choose|i: int| 0 <= i < ps.len() && ps[i].0 == u, (u, b))
    } else {
        ps.push((u, b))
    }
}

/// The bytes of the pack named `u` among `ps`, if there is one.
pub open spec fn spec_pack_of(ps: Seq<(Seq<u8>, Seq<u8>)>, u: Seq<u8>) -> Option<Seq<u8>> {
    if exists|i: int| 0 <= i < ps.len() && ps[i].0 == u {
        Some(ps[choose|i: int| 0 <= i < ps.len() && ps[i].0 == u].1)
    } else {
        None
    }
}

/// The pack locator at `p`: the uuid (16 bytes), the size and the position of the pack
/// (8 bytes each, little-endian), then a 4-byte checksum.
pub open spec fn spec_locator(s: Seq<u8>, p: int) -> Result<(Seq<u8>, int, int), Error> {
    if !in_bounds(s, p, 36) {
        Err(Error::UnexpectedEnd)
    } else {
        Ok((s.subrange(p, p + 16), le_at(s, p + 16, 8) as int, le_at(s, p + 24, 8) as int))
    }
}

/// The uuids and packs that the first `n` pack locators from `pos` on give, read in
/// order; a locator past the end of `s`, or a pack reaching past it, is an error.
pub open spec fn spec_read_packs(s: Seq<u8>, pos: int, n: nat) -> Result<(Seq<Seq<u8>>, Seq<(Seq<u8>, Seq<u8>)>), Error>
    decreases n,
{
    if n == 0 {
        Ok((Seq::empty(), Seq::empty()))
    } else {
        match spec_read_packs(s, pos, (n - 1) as nat) {
            Err(e) => Err(e),
            Ok((us, ps)) => match spec_locator(s, pos + 36 * (n - 1)) {
                Err(e) => Err(e),
                Ok((u, size, at)) => if !in_bounds(s, at, size) {
                    Err(Error::UnexpectedEnd)
                } else {
                    Ok((us.push(u), spec_insert_pack(ps, u, s.subrange(at, at + size))))
                },
            },
        }
    }
}

/// Once reading the pack locators fails, reading more of them fails the same way.
proof fn lemma_read_packs_err(s: Seq<u8>, pos: int, i: nat, n: nat)
    requires
        i <= n,
        spec_read_packs(s, pos, i) is Err,
    ensures
        spec_read_packs(s, pos, n) == spec_read_packs(s, pos, i),
    decreases n - i,
{
    if i < n {
        lemma_read_packs_err(s, pos, i, (n - 1) as nat);
    }
}

/// The container pack of bytes `s`: a pack header (of a container pack, 64 bytes), then
/// at byte 64 the position of the pack locator array (8 bytes) and the pack count
/// (2 bytes), in a 64-byte block; then the packs that the locators give.
pub open spec fn spec_container_pack(s: Seq<u8>) -> Result<ContainerPackV, Error> {
    match spec_full_pack_kind(s, 0) {
        Err(e) => Err(e),
        Ok(k) => if k != FullPackKind::Container {
            Err(Error::InvalidFormat)
        } else if !in_bounds(s, 0, 128) {
            Err(Error::UnexpectedEnd)
        } else {
            match spec_read_packs(s, le_at(s, 64, 8) as int, le_at(s, 72, 2)) {
                Err(e) => Err(e),
                Ok((us, ps)) => Ok(ContainerPackV { packs_uuid: us, packs: ps }),
            }
        },
    }
}

/// The container of the single pack of bytes `s`, named `u`.
pub open spec fn single_pack(s: Seq<u8>, u: Seq<u8>) -> ContainerPackV {
    ContainerPackV { packs_uuid: seq![u], packs: seq![(u, s)] }
}

/// What the bytes `s` of a file give as container: the container pack the file holds, or,
/// for a manifest pack, a container of that pack alone (the whole of `s`, named by the
/// uuid of its header). A directory or content pack alone is an error.
pub open spec fn spec_locate_pack(s: Seq<u8>) -> Result<ContainerPackV, Error> {
    match spec_pack_place(s) {
        Err(e) => Err(e),
        Ok((k, off, size, h)) => match k {
            FullPackKind::Container => if off + size > s.len() {
                Err(Error::UnexpectedEnd)
            } else {
                spec_container_pack(s.subrange(off as int, off + size))
            },
            FullPackKind::Manifest => Ok(single_pack(s, h.subrange(10, 26))),
            _ => Err(Error::InvalidFormat),
        },
    }
}

/// The uuids and bytes of packs held as `([u8; 16], ByteRegion)`.
pub open spec fn packs_view(p: Seq<([u8; 16], ByteRegion)>) -> Seq<(Seq<u8>, Seq<u8>)> {
    p.map_values(|x: ([u8; 16], ByteRegion)| (x.0@, x.1@))
}

/// The uuids held as arrays.
pub open spec fn uuids_view(u: Seq<[u8; 16]>) -> Seq<Seq<u8>> {
    u.map_values(|x: [u8; 16]| x@)
}

/// A pack holding other packs, each found by its uuid.
#[derive(Debug)]
pub struct ContainerPack {
    packs_uuid: Vec<[u8; 16]>,
    packs: Vec<([u8; 16], ByteRegion)>,
}

impl View for ContainerPack {
    type V = ContainerPackV;

    closed spec fn view(&self) -> ContainerPackV {
        ContainerPackV { packs_uuid: uuids_view(self.packs_uuid@), packs: packs_view(self.packs@) }
    }
}

/// Stores the pack `region` named `uuid`, in place of the pack of that uuid if there is one.
fn insert_pack(packs: &mut Vec<([u8; 16], ByteRegion)>, uuid: [u8; 16], region: ByteRegion)
    requires
        uuids_unique(packs_view(old(packs)@)),
    ensures
        packs_view(final(packs)@) == spec_insert_pack(packs_view(old(packs)@), uuid@, region@),
        uuids_unique(packs_view(final(packs)@)),
        final(packs)@.len() <= old(packs)@.len() + 1,
{
    let ghost ps = packs_view(packs@);
    let ghost u = uuid@;
    let n = packs.len();
    let mut i: usize = 0;
    while i < n
        invariant
            n == packs@.len(),
            i <= n,
            ps == packs_view(packs@),
            packs@ == old(packs)@,
            u == uuid@,
            uuids_unique(ps),
            forall|j: int| 0 <= j < i ==> ps[j].0 != u,
        decreases n - i,
    {
        if bytes_eq(packs[i].0.as_slice(), uuid.as_slice()) {
            proof {
                assert(ps[i as int].0 == u);
                let k = choose|k: int| 0 <= k < ps.len() && ps[k].0 == u;
                assert(k == i);
            }
            packs.set(i, (uuid, region));
            proof {
                assert(packs_view(packs@) =~= ps.update(i as int, (u, region@)));
                assert forall|a: int, b: int| 0 <= a < b < packs_view(packs@).len() implies
                    #[trigger] packs_view(packs@)[a].0 != #[trigger] packs_view(packs@)[b].0 by {
                    if a != i && b != i {
                        assert(ps[a].0 != ps[b].0);
                    }
                }
            }
            return;
        }
        i = i + 1;
    }
    packs.push((uuid, region));
    proof {
        assert(!(exists|k: int| 0 <= k < ps.len() && ps[k].0 == u));
        assert(packs_view(packs@) =~= ps.push((u, region@)));
        assert forall|a: int, b: int| 0 <= a < b < packs_view(packs@).len() implies
            #[trigger] packs_view(packs@)[a].0 != #[trigger] packs_view(packs@)[b].0 by {
            if b < n {
                assert(ps[a].0 != ps[b].0);
            }
        }
    }
}

/// Storing a pack and then asking for a uuid gives the stored pack for its own uuid, and
/// what was there before for any other uuid.
pub proof fn lemma_insert_then_get(ps: Seq<(Seq<u8>, Seq<u8>)>, u: Seq<u8>, b: Seq<u8>, v: Seq<u8>)
    requires
        uuids_unique(ps),
    ensures
        uuids_unique(spec_insert_pack(ps, u, b)),
        spec_pack_of(spec_insert_pack(ps, u, b), u) == Some(b),
        v != u ==> spec_pack_of(spec_insert_pack(ps, u, b), v) == spec_pack_of(ps, v),
{
    let qs = spec_insert_pack(ps, u, b);
    if exists|i: int| 0 <= i < ps.len() && ps[i].0 == u {
        let k = choose|i: int| 0 <= i < ps.len() && ps[i].0 == u;
        assert(qs == ps.update(k, (u, b)));
        assert forall|a: int, c: int| 0 <= a < c < qs.len() implies #[trigger] qs[a].0 != #[trigger] qs[c].0 by {
            if a != k && c != k {
                assert(ps[a].0 != ps[c].0);
            } else if a == k {
                assert(ps[k].0 != ps[c].0);
            } else {
                assert(ps[a].0 != ps[k].0);
            }
        }
        assert(qs[k].0 == u);
        let k2 = choose|i: int| 0 <= i < qs.len() && qs[i].0 == u;
        assert(k2 == k);
        if v != u {
            if exists|i: int| 0 <= i < ps.len() && ps[i].0 == v {
                let j = choose|i: int| 0 <= i < ps.len() && ps[i].0 == v;
                assert(qs[j].0 == v);
                let j2 = choose|i: int| 0 <= i < qs.len() && qs[i].0 == v;
                assert(j2 == j);
            } else {
                assert forall|i: int| 0 <= i < qs.len() implies qs[i].0 != v by {
                    if i != k {
                        assert(qs[i] == ps[i]);
                    }
                }
            }
        }
    } else {
        assert(qs == ps.push((u, b)));
        assert forall|a: int, c: int| 0 <= a < c < qs.len() implies #[trigger] qs[a].0 != #[trigger] qs[c].0 by {
            if c < ps.len() {
                assert(ps[a].0 != ps[c].0);
            }
        }
        let n = ps.len() as int;
        assert(qs[n].0 == u);
        let k2 = choose|i: int| 0 <= i < qs.len() && qs[i].0 == u;
        assert(k2 == n);
        if v != u {
            if exists|i: int| 0 <= i < ps.len() && ps[i].0 == v {
                let j = choose|i: int| 0 <= i < ps.len() && ps[i].0 == v;
                assert(qs[j].0 == v);
                let j2 = choose|i: int| 0 <= i < qs.len() && qs[i].0 == v;
                assert(j2 == j);
            } else {
                assert forall|i: int| 0 <= i < qs.len() implies qs[i].0 != v by {
                    if i < n {
                        assert(qs[i] == ps[i]);
                    }
                }
            }
        }
    }
}

/// The kind of the pack of bytes `b`, read from its 64-byte header.
pub open spec fn spec_header_kind(b: Seq<u8>) -> Result<FullPackKind, Error> {
    match spec_full_pack_kind(b, 0) {
        Err(e) => Err(e),
        Ok(k) => if b.len() < 64 {
            Err(Error::UnexpectedEnd)
        } else {
            Ok(k)
        },
    }
}

/// The first manifest pack among the packs `ps` from the `i`-th on: the first pack whose
/// header says it is a manifest pack; reading the header of a pack before it may fail.
pub open spec fn spec_manifest_from(ps: Seq<(Seq<u8>, Seq<u8>)>, i: int) -> Result<Option<Seq<u8>>, Error>
    decreases ps.len() - i,
{
    if i < 0 || i >= ps.len() {
        Ok(None)
    } else {
        match spec_header_kind(ps[i].1) {
            Err(e) => Err(e),
            Ok(k) => if k == FullPackKind::Manifest {
                Ok(Some(ps[i].1))
            } else {
                spec_manifest_from(ps, i + 1)
            },
        }
    }
}

impl ContainerPack {
    /// No uuid names two packs, and the pack count fits its 2 bytes.
    #[verifier::type_invariant]
    closed spec fn well_formed(&self) -> bool {
        &&& uuids_unique(packs_view(self.packs@))
        &&& self.packs@.len() <= 0xFFFF
    }

    /// Reads the container pack whose bytes are `region`.
    pub fn new(region: ByteRegion) -> (r: Result<ContainerPack, Error>)
        ensures
            match spec_container_pack(region@) {
                Ok(v) => (r matches Ok(c) && c@ == v),
                Err(e) => (r matches Err(x) && x == e),
            },
    {
        let n = region.size();
        let buf = match region.get_slice(0, n) {
            Ok(b) => b,
            Err(e) => return Err(e),
        };
        assert(buf@ =~= region@);
        let kind = FullPackKind::produce(buf, 0)?;
        match kind {
            FullPackKind::Container => {},
            _ => return Err(Error::InvalidFormat),
        }
        if buf.len() < 128 {
            return Err(Error::UnexpectedEnd);
        }
        let pos = read_uint_at(buf, 64, 8)?;
        let count = read_uint_at(buf, 72, 2)?;
        proof {
            crate::bases::lemma_le_at_bound(buf@, 64, 8);
            crate::bases::lemma_le_at_bound(buf@, 72, 2);
            crate::ints::lemma_pow256_values();
        }
        let ghost s = buf@;
        let mut packs_uuid: Vec<[u8; 16]> = Vec::new();
        let mut packs: Vec<([u8; 16], ByteRegion)> = Vec::new();
        let mut i: u64 = 0;
        proof {
            assert(uuids_view(packs_uuid@) =~= Seq::<Seq<u8>>::empty());
            assert(packs_view(packs@) =~= Seq::<(Seq<u8>, Seq<u8>)>::empty());
        }
        while i < count
            invariant
                s == buf@,
                s == region@,
                count < 0x1_0000,
                i <= count,
                pos == le_at(s, 64, 8),
                count == le_at(s, 72, 2),
                spec_full_pack_kind(s, 0) == Ok::<FullPackKind, Error>(FullPackKind::Container),
                s.len() >= 128,
                spec_read_packs(s, pos as int, i as nat) == Ok::<(Seq<Seq<u8>>, Seq<(Seq<u8>, Seq<u8>)>), Error>(
                    (uuids_view(packs_uuid@), packs_view(packs@)),
                ),
                uuids_unique(packs_view(packs@)),
                packs@.len() <= i,
            decreases count - i,
        {
            let p: u128 = pos as u128 + 36 * (i as u128);
            if p + 36 > buf.len() as u128 {
                proof {
                    assert(spec_read_packs(s, pos as int, (i + 1) as nat) == Err::<(Seq<Seq<u8>>, Seq<(Seq<u8>, Seq<u8>)>), Error>(Error::UnexpectedEnd));
                    lemma_read_packs_err(s, pos as int, (i + 1) as nat, count as nat);
                }
                return Err(Error::UnexpectedEnd);
            }
            let p = p as usize;
            let uuid: [u8; 16] = copy_bytes_at(buf, p);
            let size = read_uint_at(buf, p + 16, 8)?;
            let at = read_uint_at(buf, p + 24, 8)?;
            proof {
                crate::bases::lemma_le_at_bound(s, p + 16, 8);
                crate::bases::lemma_le_at_bound(s, p + 24, 8);
                assert(p == pos + 36 * i);
                assert(spec_locator(s, pos + 36 * i) == Ok::<(Seq<u8>, int, int), Error>((uuid@, size as int, at as int)));
            }
            if at as u128 + size as u128 > buf.len() as u128 {
                proof {
                    assert(spec_read_packs(s, pos as int, (i + 1) as nat) == Err::<(Seq<Seq<u8>>, Seq<(Seq<u8>, Seq<u8>)>), Error>(Error::UnexpectedEnd));
                    lemma_read_packs_err(s, pos as int, (i + 1) as nat, count as nat);
                }
                return Err(Error::UnexpectedEnd);
            }
            let sub = region.sub_region(at, size);
            let ghost us0 = packs_uuid@;
            packs_uuid.push(uuid);
            insert_pack(&mut packs, uuid, sub);
            proof {
                assert(uuids_view(packs_uuid@) =~= uuids_view(us0).push(uuid@));
            }
            i = i + 1;
        }
        Ok(ContainerPack { packs_uuid, packs })
    }
    /// The container of the single pack `region`, named `uuid`.
    pub fn new_fake(region: ByteRegion, uuid: [u8; 16]) -> (r: ContainerPack)
        ensures
            r@ == single_pack(region@, uuid@),
    {
        let ghost b = region@;
        let mut packs_uuid: Vec<[u8; 16]> = Vec::new();
        packs_uuid.push(uuid);
        let mut packs: Vec<([u8; 16], ByteRegion)> = Vec::new();
        packs.push((uuid, region));
        proof {
            assert(uuids_view(packs_uuid@) =~= seq![uuid@]);
            assert(packs_view(packs@) =~= seq![(uuid@, b)]);
        }
        ContainerPack { packs_uuid, packs }
    }

    /// The number of packs (of distinct uuids).
    pub fn pack_count(&self) -> (r: u16)
        ensures
            r == self@.packs.len(),
    {
        proof {
            use_type_invariant(self);
        }
        self.packs.len() as u16
    }

    /// The uuid of the `idx`-th pack locator.
    pub fn get_pack_uuid(&self, idx: u16) -> (r: [u8; 16])
        requires
            idx < self@.packs_uuid.len(),
        ensures
            r@ == self@.packs_uuid[idx as int],
    {
        self.packs_uuid[idx as usize]
    }

    /// The bytes of the pack named `uuid`, if the container holds one.
    pub fn get_pack_reader(&self, uuid: &[u8; 16]) -> (r: Option<ByteRegion>)
        ensures
            match spec_pack_of(self@.packs, uuid@) {
                Some(b) => (r matches Some(x) && x@ == b),
                None => r is None,
            },
    {
        proof {
            use_type_invariant(self);
        }
        let ghost ps = packs_view(self.packs@);
        let n = self.packs.len();
        let mut i: usize = 0;
        while i < n
            invariant
                n == self.packs@.len(),
                ps == packs_view(self.packs@),
                uuids_unique(ps),
                i <= n,
                forall|j: int| 0 <= j < i ==> ps[j].0 != uuid@,
            decreases n - i,
        {
            if bytes_eq(self.packs[i].0.as_slice(), uuid.as_slice()) {
                proof {
                    assert(ps[i as int].0 == uuid@);
                    let k = choose|k: int| 0 <= k < ps.len() && ps[k].0 == uuid@;
                    assert(k == i);
                }
                return Some(self.packs[i].1.share());
            }
            i = i + 1;
        }
        None
    }

    /// The bytes of the pack of the `idx`-th pack locator.
    pub fn get_pack_reader_from_idx(&self, idx: u16) -> (r: Option<ByteRegion>)
        requires
            idx < self@.packs_uuid.len(),
        ensures
            match spec_pack_of(self@.packs, self@.packs_uuid[idx as int]) {
                Some(b) => (r matches Some(x) && x@ == b),
                None => r is None,
            },
    {
        let uuid = self.get_pack_uuid(idx);
        self.get_pack_reader(&uuid)
    }

    /// The bytes of the first pack whose header says it is a manifest pack.
    pub fn get_manifest_pack_reader(&self) -> (r: Result<Option<ByteRegion>, Error>)
        ensures
            match spec_manifest_from(self@.packs, 0) {
                Ok(Some(b)) => (r matches Ok(Some(x)) && x@ == b),
                Ok(None) => (r matches Ok(None)),
                Err(e) => (r matches Err(x) && x == e),
            },
    {
        let ghost ps = packs_view(self.packs@);
        let n = self.packs.len();
        let mut i: usize = 0;
        while i < n
            invariant
                n == self.packs@.len(),
                ps == packs_view(self.packs@),
                i <= n,
                spec_manifest_from(ps, 0) == spec_manifest_from(ps, i as int),
            decreases n - i,
        {
            let region = &self.packs[i].1;
            let size = region.size();
            let buf = match region.get_slice(0, size) {
                Ok(b) => b,
                Err(e) => return Err(e),
            };
            assert(buf@ =~= ps[i as int].1);
            let kind = FullPackKind::produce(buf, 0)?;
            if buf.len() < 64 {
                return Err(Error::UnexpectedEnd);
            }
            match kind {
                FullPackKind::Manifest => {
                    return Ok(Some(region.share()));
                },
                _ => {},
            }
            i = i + 1;
        }
        Ok(None)
    }
}

/// The container that the bytes `region` of a file give: the container pack it holds, or
/// a container of the manifest pack it is.
pub fn locate_pack(region: ByteRegion) -> (r: Result<ContainerPack, Error>)
    ensures
        match spec_locate_pack(region@) {
            Ok(v) => (r matches Ok(c) && c@ == v),
            Err(e) => (r matches Err(x) && x == e),
        },
{
    let (kind, offset, size, header) = locate_pack_header(&region)?;
    match kind {
        FullPackKind::Container => {
            if offset as u128 + size as u128 > region.size() as u128 {
                return Err(Error::UnexpectedEnd);
            }
            ContainerPack::new(region.sub_region(offset, size))
        },
        FullPackKind::Manifest => {
            let uuid: [u8; 16] = copy_bytes_at(header.as_slice(), 10);
            Ok(ContainerPack::new_fake(region, uuid))
        },
        _ => Err(Error::InvalidFormat),
    }
}

/// Reading `n` pack locators gives `n` uuids, no uuid names two packs, and each uuid
/// read names a pack: the one its last locator gives.
pub proof fn lemma_read_packs_found(s: Seq<u8>, pos: int, n: nat)
    requires
        spec_read_packs(s, pos, n) is Ok,
    ensures
        ({
            let (us, ps) = spec_read_packs(s, pos, n).unwrap();
            &&& us.len() == n
            &&& uuids_unique(ps)
            &&& forall|k: int| 0 <= k < us.len() ==> (#[trigger] spec_pack_of(ps, us[k])) is Some
        }),
    decreases n,
{
    if n > 0 {
        lemma_read_packs_found(s, pos, (n - 1) as nat);
        let (us0, ps0) = spec_read_packs(s, pos, (n - 1) as nat).unwrap();
        let (u, size, at) = spec_locator(s, pos + 36 * (n - 1)).unwrap();
        let b = s.subrange(at, at + size);
        let (us, ps) = spec_read_packs(s, pos, n).unwrap();
        assert(us == us0.push(u));
        assert(ps == spec_insert_pack(ps0, u, b));
        lemma_insert_then_get(ps0, u, b, u);
        assert forall|k: int| 0 <= k < us.len() implies (#[trigger] spec_pack_of(ps, us[k])) is Some by {
            if k < us0.len() {
                assert(us[k] == us0[k]);
                assert(spec_pack_of(ps0, us0[k]) is Some);
                lemma_insert_then_get(ps0, u, b, us0[k]);
            }
        }
    }
}

/// Every pack locator of a container pack finds its pack: the uuid of each locator names
/// a pack of the container.
pub proof fn lemma_container_locators_found(s: Seq<u8>)
    requires
        spec_container_pack(s) is Ok,
    ensures
        forall|k: int|
            0 <= k < spec_container_pack(s).unwrap().packs_uuid.len() ==> (#[trigger] spec_pack_of(
                spec_container_pack(s).unwrap().packs,
                spec_container_pack(s).unwrap().packs_uuid[k],
            )) is Some,
{
    lemma_read_packs_found(s, le_at(s, 64, 8) as int, le_at(s, 72, 2));
}

/// Locator `k` of a container pack is the `k`-th 36-byte block from the position of the
/// locator array: the `k`-th uuid read is the first 16 bytes of that block.
pub proof fn lemma_locator_uuids(s: Seq<u8>, pos: int, n: nat)
    requires
        spec_read_packs(s, pos, n) is Ok,
    ensures
        forall|k: int|
            0 <= k < n ==> (#[trigger] spec_read_packs(s, pos, n).unwrap().0[k]) == s.subrange(
                pos + 36 * k,
                pos + 36 * k + 16,
            ),
    decreases n,
{
    if n > 0 {
        lemma_read_packs_found(s, pos, (n - 1) as nat);
        lemma_locator_uuids(s, pos, (n - 1) as nat);
        let us0 = spec_read_packs(s, pos, (n - 1) as nat).unwrap().0;
        let us = spec_read_packs(s, pos, n).unwrap().0;
        assert forall|k: int| 0 <= k < n implies (#[trigger] us[k]) == s.subrange(pos + 36 * k, pos + 36 * k + 16) by {
            if k < n - 1 {
                assert(us[k] == us0[k]);
            }
        }
    }
}

} // verus!
