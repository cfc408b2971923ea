//! Clusters: blobs of content stored together, compressed or not.
use super::byte_region::ByteRegion;
use super::byte_stream::share_bytes;
use crate::bases::{in_bounds, read_u8_at, read_uint_at, spec_u8_at, spec_uint_at, ByteSize};
use crate::error::Error;
use std::io::Read;
use std::sync::Arc;
use vstd::prelude::*;
use vstd::slice::{slice_subrange, slice_to_vec};

verus! {

/// How the data of a cluster is compressed.
#[derive(Debug, Clone, Copy, PartialEq, Eq, Structural)]
pub enum CompressionType {
    Uncompressed,
    Lz4,
    Lzma,
    Zstd,
}

/// The compression of code `c`: 0 none, 1 lz4, 2 lzma, 3 zstd.
pub open spec fn compression_of(c: u8) -> Option<CompressionType> {
    if c == 0 {
        Some(CompressionType::Uncompressed)
    } else if c == 1 {
        Some(CompressionType::Lz4)
    } else if c == 2 {
        Some(CompressionType::Lzma)
    } else if c == 3 {
        Some(CompressionType::Zstd)
    } else {
        None
    }
}

/// The first `size` bytes (at most) that decoding the lz4 stream `raw` gives; `None`
/// when the decoder fails.
pub uninterp spec fn lz4_decoded(raw: Seq<u8>, size: u64) -> Option<Seq<u8>>;

/// The first `size` bytes (at most) that decoding the lzma stream `raw` with the memory
/// limit `memlimit` gives; `None` when the decoder fails.
pub uninterp spec fn lzma_decoded(raw: Seq<u8>, size: u64, memlimit: u64) -> Option<Seq<u8>>;

/// The first `size` bytes (at most) that decoding the zstd stream `raw` gives; `None`
/// when the decoder fails.
pub uninterp spec fn zstd_decoded(raw: Seq<u8>, size: u64) -> Option<Seq<u8>>;

/// `lz4::Decoder` of the lz4 crate, read for at most `size` bytes. What it decodes is
/// named, not stated; a failure of the decoder becomes a decompression error.
#[verifier::external_body]
fn lz4_decompress(raw: &[u8], size: u64) -> (r: Result<Vec<u8>, Error>)
    ensures
        match lz4_decoded(raw@, size) {
            Some(d) => (r matches Ok(v) && v@ == d),
            None => r == Err::<Vec<u8>, Error>(Error::Decompression),
        },
{
    let decoder = lz4::Decoder::new(raw).map_err(|_| Error::Decompression)?;
    let mut v = Vec::new();
    decoder.take(size).read_to_end(&mut v).map_err(|_| Error::Decompression)?;
    Ok(v)
}

/// `xz2::read::XzDecoder` of the xz2 crate over an lzma decoder stream with memory limit
/// `memlimit`, read for at most `size` bytes. What it decodes is named, not stated; a
/// failure of the decoder becomes a decompression error.
#[verifier::external_body]
fn lzma_decompress(raw: &[u8], size: u64, memlimit: u64) -> (r: Result<Vec<u8>, Error>)
    ensures
        match lzma_decoded(raw@, size, memlimit) {
            Some(d) => (r matches Ok(v) && v@ == d),
            None => r == Err::<Vec<u8>, Error>(Error::Decompression),
        },
{
    let stream = xz2::stream::Stream::new_lzma_decoder(memlimit).map_err(|_| Error::Decompression)?;
    let decoder = xz2::read::XzDecoder::new_stream(raw, stream);
    let mut v = Vec::new();
    decoder.take(size).read_to_end(&mut v).map_err(|_| Error::Decompression)?;
    Ok(v)
}

/// `zstd::Decoder` of the zstd crate, read for at most `size` bytes. What it decodes is
/// named, not stated; a failure of the decoder becomes a decompression error.
#[verifier::external_body]
fn zstd_decompress(raw: &[u8], size: u64) -> (r: Result<Vec<u8>, Error>)
    ensures
        match zstd_decoded(raw@, size) {
            Some(d) => (r matches Ok(v) && v@ == d),
            None => r == Err::<Vec<u8>, Error>(Error::Decompression),
        },
{
    let decoder = zstd::Decoder::new(raw).map_err(|_| Error::Decompression)?;
    let mut v = Vec::new();
    decoder.take(size).read_to_end(&mut v).map_err(|_| Error::Decompression)?;
    Ok(v)
}

/// The memory the lzma decoder may use.
pub const LZMA_MEMLIMIT: u64 = 128 * 1024 * 1024;

/// The data of a cluster once decompressed, out of its raw data.
pub open spec fn plain_data(c: CompressionType, raw: Seq<u8>, data_size: u64) -> Result<Seq<u8>, Error> {
    let decoded = match c {
        CompressionType::Uncompressed => Some(raw),
        CompressionType::Lz4 => lz4_decoded(raw, data_size),
        CompressionType::Lzma => lzma_decoded(raw, data_size, LZMA_MEMLIMIT),
        CompressionType::Zstd => zstd_decoded(raw, data_size),
    };
    match decoded {
        None => Err(Error::Decompression),
        Some(d) => Ok(d),
    }
}

/// What the header of a cluster says: its compression, the size of its raw data, the
/// size of its data once decompressed, and where each blob starts, followed by the
/// data size.
pub struct ClusterBuilder {
    pub blob_offsets: Vec<u64>,
    pub data_size: u64,
    pub compression: CompressionType,
}

/// The mathematical content of a [ClusterBuilder].
pub struct ClusterBuilderV {
    pub blob_offsets: Seq<u64>,
    pub data_size: u64,
    pub compression: CompressionType,
}

impl View for ClusterBuilder {
    type V = ClusterBuilderV;

    open spec fn view(&self) -> ClusterBuilderV {
        ClusterBuilderV { blob_offsets: self.blob_offsets@, data_size: self.data_size, compression: self.compression }
    }
}

/// The blob offsets that follow the sizes, from `pos` on: the first blob starts at 0
/// and its offset is not stored; the `count - 1` others are, on `osz` bytes each, and
/// lie within the data. The list ends with the data size.
pub open spec fn spec_blob_offsets(s: Seq<u8>, pos: int, i: nat, count: nat, osz: nat, data_size: u64) -> Result<Seq<u64>, Error>
    decreases i,
{
    if i == 0 {
        Ok(Seq::empty())
    } else {
        match spec_blob_offsets(s, pos, (i - 1) as nat, count, osz, data_size) {
            Err(e) => Err(e),
            Ok(offs) => if i == 1 {
                Ok(offs.push(0))
            } else {
                match spec_uint_at(s, pos + (i - 2) * osz, osz) {
                    Err(e) => Err(e),
                    Ok(v) => if v > data_size {
                        Err(Error::InvalidFormat)
                    } else {
                        Ok(offs.push(v))
                    },
                }
            },
        }
    }
}

/// The cluster header stored at `pos`: the compression byte, the size of the offsets
/// (1 to 8 bytes), the blob count (2 bytes), the raw data size, the data size and the
/// blob offsets. Returns what it says and the raw data size.
pub open spec fn spec_cluster_header(s: Seq<u8>, pos: int) -> Result<(ClusterBuilderV, u64), Error> {
    match spec_u8_at(s, pos) {
        Err(e) => Err(e),
        Ok(c) => match compression_of(c) {
            None => Err(Error::InvalidFormat),
            Some(compression) => match spec_u8_at(s, pos + 1) {
                Err(e) => Err(e),
                Ok(osz) => if osz < 1 || osz > 8 {
                    Err(Error::InvalidFormat)
                } else {
                    match spec_uint_at(s, pos + 2, 2) {
                        Err(e) => Err(e),
                        Ok(count) => match spec_uint_at(s, pos + 4, osz as nat) {
                            Err(e) => Err(e),
                            Ok(raw_size) => match spec_uint_at(s, pos + 4 + osz, osz as nat) {
                                Err(e) => Err(e),
                                Ok(data_size) => match spec_blob_offsets(
                                    s,
                                    pos + 4 + 2 * osz,
                                    count as nat,
                                    count as nat,
                                    osz as nat,
                                    data_size,
                                ) {
                                    Err(e) => Err(e),
                                    Ok(offs) => if compression == CompressionType::Uncompressed && raw_size != data_size {
                                        Err(Error::InvalidFormat)
                                    } else {
                                        Ok(
                                            (
                                                ClusterBuilderV {
                                                    blob_offsets: offs.push(data_size),
                                                    data_size,
                                                    compression,
                                                },
                                                raw_size,
                                            ),
                                        )
                                    },
                                },
                            },
                        },
                    }
                },
            },
        },
    }
}

proof fn lemma_blob_offsets_err(s: Seq<u8>, pos: int, i: nat, n: nat, count: nat, osz: nat, data_size: u64)
    requires
        i <= n,
        spec_blob_offsets(s, pos, i, count, osz, data_size) is Err,
    ensures
        spec_blob_offsets(s, pos, n, count, osz, data_size) == spec_blob_offsets(s, pos, i, count, osz, data_size),
    decreases n - i,
{
    if i < n {
        lemma_blob_offsets_err(s, pos, i, (n - 1) as nat, count, osz, data_size);
    }
}

impl ClusterBuilder {
    /// Reads the cluster header stored at `pos`; returns what it says with the raw data size.
    pub fn parse(buf: &[u8], pos: usize) -> (r: Result<(ClusterBuilder, u64), Error>)
        ensures
            match spec_cluster_header(buf@, pos as int) {
                Ok((b, raw)) => (r matches Ok((rb, rr)) && rb@ == b && rr == raw),
                Err(e) => r matches Err(re) && re == e,
            },
    {
        let blen = buf.len();
        let c = read_u8_at(buf, pos)?;
        let compression = if c == 0 {
            CompressionType::Uncompressed
        } else if c == 1 {
            CompressionType::Lz4
        } else if c == 2 {
            CompressionType::Lzma
        } else if c == 3 {
            CompressionType::Zstd
        } else {
            return Err(Error::InvalidFormat);
        };
        let osz = read_u8_at(buf, pos + 1)?;
        if osz < 1 || osz > 8 {
            return Err(Error::InvalidFormat);
        }
        let n = osz as usize;
        let count = read_uint_at(buf, pos + 2, 2)?;
        let raw_size = read_uint_at(buf, pos + 4, n)?;
        let data_size = read_uint_at(buf, pos + 4 + n, n)?;
        proof {
            crate::bases::lemma_le_at_bound(buf@, pos + 2, 2);
            crate::ints::lemma_pow256_values();
        }
        let count64 = count;
        let count = count as usize;
        let start = pos + 4 + 2 * n;
        let mut offsets: Vec<u64> = Vec::new();
        let mut i: usize = 0;
        let mut q: usize = start;
        assert(spec_blob_offsets(buf@, start as int, 0, count as nat, n as nat, data_size) == Ok::<Seq<u64>, Error>(offsets@));
        while i < count
            invariant
                blen == buf@.len(),
                spec_u8_at(buf@, pos as int) == Ok::<u8, Error>(c),
                compression_of(c) == Some(compression),
                spec_u8_at(buf@, pos + 1) == Ok::<u8, Error>(osz),
                osz == n,
                spec_uint_at(buf@, pos + 2, 2) == Ok::<u64, Error>(count64),
                count == count64,
                spec_uint_at(buf@, pos + 4, n as nat) == Ok::<u64, Error>(raw_size),
                spec_uint_at(buf@, pos + 4 + n, n as nat) == Ok::<u64, Error>(data_size),
                start == pos + 4 + 2 * n,
                count <= 0xFFFF,
                1 <= n <= 8,
                start <= blen,
                i <= count,
                i > 0 ==> q == start + (i - 1) * n,
                i == 0 ==> q == start,
                q <= blen,
                spec_blob_offsets(buf@, start as int, i as nat, count as nat, n as nat, data_size) == Ok::<Seq<u64>, Error>(offsets@),
            decreases count - i,
        {
            if i == 0 {
                offsets.push(0);
                assert(q == start + (i + 1 - 1) * n) by (nonlinear_arith)
                    requires
                        q == start,
                        i == 0,
                ;
            } else {
                let v = match read_uint_at(buf, q, n) {
                    Ok(v) => v,
                    Err(e) => {
                        proof {
                            lemma_blob_offsets_err(buf@, start as int, (i + 1) as nat, count as nat, count as nat, n as nat, data_size);
                        }
                        return Err(e);
                    },
                };
                if v > data_size {
                    proof {
                        lemma_blob_offsets_err(buf@, start as int, (i + 1) as nat, count as nat, count as nat, n as nat, data_size);
                    }
                    return Err(Error::InvalidFormat);
                }
                offsets.push(v);
                let ghost q0 = q;
                q = q + n;
                assert(q == start + (i + 1 - 1) * n) by (nonlinear_arith)
                    requires
                        q0 == start + (i - 1) * n,
                        q == q0 + n,
                ;
            }
            i = i + 1;
        }
        if compression == CompressionType::Uncompressed && raw_size != data_size {
            return Err(Error::InvalidFormat);
        }
        offsets.push(data_size);
        Ok((ClusterBuilder { blob_offsets: offsets, data_size, compression }, raw_size))
    }
}

/// A cluster: its blob offsets, its data size, its compression and its raw data; and,
/// once built, its plain (decompressed) data, kept for the next reads.
#[derive(Debug)]
pub struct Cluster {
    blob_offsets: Vec<u64>,
    data_size: u64,
    compression: CompressionType,
    raw: Vec<u8>,
    plain: Option<Arc<Vec<u8>>>,
}

/// The mathematical content of a [Cluster].
pub struct ClusterV {
    pub blob_offsets: Seq<u64>,
    pub data_size: u64,
    pub compression: CompressionType,
    pub raw: Seq<u8>,
}

impl View for Cluster {
    type V = ClusterV;

    closed spec fn view(&self) -> ClusterV {
        ClusterV {
            blob_offsets: self.blob_offsets@,
            data_size: self.data_size,
            compression: self.compression,
            raw: self.raw@,
        }
    }
}

/// The cluster whose header lies in the `header_size` bytes at `header_offset` of `s`;
/// its raw data lies just before the header.
pub open spec fn spec_cluster(s: Seq<u8>, header_offset: int, header_size: int) -> Result<ClusterV, Error> {
    if !in_bounds(s, header_offset, header_size) {
        Err(Error::UnexpectedEnd)
    } else {
        match spec_cluster_header(s.subrange(header_offset, header_offset + header_size), 0) {
            Err(e) => Err(e),
            Ok((b, raw_size)) => if header_offset < raw_size {
                Err(Error::InvalidFormat)
            } else {
                Ok(
                    ClusterV {
                        blob_offsets: b.blob_offsets,
                        data_size: b.data_size,
                        compression: b.compression,
                        raw: s.subrange(header_offset - raw_size, header_offset),
                    },
                )
            },
        }
    }
}

/// The bytes of blob `index` of the decompressed data `d`, whose blobs start at
/// `offsets` (the data size last): an error for a blob that does not exist, for a blob
/// ending before it starts, or for a blob past the end of the data.
pub open spec fn spec_blob_in(d: Seq<u8>, offsets: Seq<u64>, index: u16) -> Result<Seq<u8>, Error> {
    if index + 1 >= offsets.len() {
        Err(Error::Arg)
    } else {
        let start = offsets[index as int];
        let end = offsets[index + 1];
        if end < start {
            Err(Error::InvalidFormat)
        } else if end > d.len() {
            Err(Error::UnexpectedEnd)
        } else {
            Ok(d.subrange(start as int, end as int))
        }
    }
}

/// The bytes of blob `index` of the cluster: an error for a blob it does not have, else
/// the blob of its decompressed data.
pub open spec fn spec_blob(c: ClusterV, index: u16) -> Result<Seq<u8>, Error> {
    if index + 1 >= c.blob_offsets.len() {
        Err(Error::Arg)
    } else {
        match plain_data(c.compression, c.raw, c.data_size) {
            Err(e) => Err(e),
            Ok(d) => spec_blob_in(d, c.blob_offsets, index),
        }
    }
}

/// The region of blob `index` of the decompressed data `data`, whose blobs start at
/// `offsets`.
pub fn blob_of(data: Vec<u8>, offsets: &[u64], index: u16) -> (r: Result<ByteRegion, Error>)
    ensures
        match spec_blob_in(data@, offsets@, index) {
            Ok(b) => (r matches Ok(region) && region@ == b),
            Err(e) => r matches Err(re) && re == e,
        },
{
    blob_of_shared(&Arc::new(data), offsets, index)
}

/// The region of blob `index` of the shared decompressed data `data`, whose blobs start
/// at `offsets`.
fn blob_of_shared(data: &Arc<Vec<u8>>, offsets: &[u64], index: u16) -> (r: Result<ByteRegion, Error>)
    ensures
        match spec_blob_in(data@, offsets@, index) {
            Ok(b) => (r matches Ok(region) && region@ == b),
            Err(e) => r matches Err(re) && re == e,
        },
{
    let i = index as usize;
    if i + 1 >= offsets.len() {
        return Err(Error::Arg);
    }
    let start = offsets[i];
    let end = offsets[i + 1];
    if end < start {
        return Err(Error::InvalidFormat);
    }
    if end > data.len() as u64 {
        return Err(Error::UnexpectedEnd);
    }
    Ok(ByteRegion::new_from_parts(share_bytes(data), start as usize, end as usize))
}

impl Cluster {
    /// The plain data, once built, is the decompressed raw data.
    #[verifier::type_invariant]
    closed spec fn plain_is_decoded(&self) -> bool {
        self.plain matches Some(d) ==> plain_data(self.compression, self.raw@, self.data_size) == Ok::<Seq<u8>, Error>(d@)
    }

    /// The plain data of the cluster, once built.
    pub closed spec fn spec_plain(&self) -> Option<Seq<u8>> {
        match self.plain {
            Some(d) => Some(d@),
            None => None,
        }
    }

    /// Reads the cluster whose header lies in the `header_size` bytes at `header_offset`.
    pub fn parse(buf: &[u8], header_offset: usize, header_size: usize) -> (r: Result<Cluster, Error>)
        ensures
            match spec_cluster(buf@, header_offset as int, header_size as int) {
                Ok(c) => (r matches Ok(rc) && rc@ == c && rc.spec_plain() == (if c.compression
                    == CompressionType::Uncompressed {
                    Some(c.raw)
                } else {
                    None::<Seq<u8>>
                })),
                Err(e) => r matches Err(re) && re == e,
            },
    {
        let blen = buf.len();
        if !(header_size <= blen && header_offset <= blen - header_size) {
            return Err(Error::UnexpectedEnd);
        }
        let header = slice_subrange(buf, header_offset, header_offset + header_size);
        let (builder, raw_size) = ClusterBuilder::parse(header, 0)?;
        if (header_offset as u64) < raw_size {
            return Err(Error::InvalidFormat);
        }
        let start = header_offset - raw_size as usize;
        let raw = slice_to_vec(slice_subrange(buf, start, header_offset));
        let plain = match builder.compression {
            CompressionType::Uncompressed => Some(Arc::new(slice_to_vec(slice_subrange(buf, start, header_offset)))),
            _ => None,
        };
        Ok(
            Cluster {
                blob_offsets: builder.blob_offsets,
                data_size: builder.data_size,
                compression: builder.compression,
                raw,
                plain,
            },
        )
    }

    /// The number of blobs.
    pub fn blob_count(&self) -> (r: usize)
        ensures
            r + 1 == self@.blob_offsets.len() || (r == 0 && self@.blob_offsets.len() == 0),
    {
        let n = self.blob_offsets.len();
        if n == 0 {
            0
        } else {
            n - 1
        }
    }

    /// The data of the cluster, decompressed.
    fn decode(&self) -> (r: Result<Vec<u8>, Error>)
        ensures
            match plain_data(self@.compression, self@.raw, self@.data_size) {
                Ok(d) => (r matches Ok(v) && v@ == d),
                Err(e) => r matches Err(re) && re == e,
            },
    {
        let raw = self.raw.as_slice();
        match self.compression {
            CompressionType::Uncompressed => Ok(slice_to_vec(raw)),
            CompressionType::Lz4 => lz4_decompress(raw, self.data_size),
            CompressionType::Lzma => lzma_decompress(raw, self.data_size, LZMA_MEMLIMIT),
            CompressionType::Zstd => zstd_decompress(raw, self.data_size),
        }
    }

    /// Builds the plain data of the cluster, once: a cluster whose plain data is built
    /// is left as it is; else its raw data is decompressed and kept, or the decompression
    /// error is returned and the cluster left as it is.
    pub fn build_plain_reader(&mut self) -> (r: Result<(), Error>)
        ensures
            final(self)@ == old(self)@,
            old(self).spec_plain() is Some ==> r is Ok && final(self).spec_plain() == old(self).spec_plain(),
            old(self).spec_plain() is None ==> match plain_data(old(self)@.compression, old(self)@.raw, old(self)@.data_size) {
                Ok(d) => r is Ok && final(self).spec_plain() == Some(d),
                Err(e) => r == Err::<(), Error>(e) && final(self).spec_plain() is None,
            },
            final(self).spec_plain() matches Some(d) ==> plain_data(final(self)@.compression, final(self)@.raw, final(self)@.data_size)
                == Ok::<Seq<u8>, Error>(d),
    {
        proof {
            use_type_invariant(&*self);
        }
        if self.plain.is_some() {
            return Ok(());
        }
        let data = self.decode()?;
        self.plain = Some(Arc::new(data));
        Ok(())
    }

    /// The bytes of blob `index`: of the plain data when it is built, else of the raw
    /// data decompressed for this read.
    pub fn get_bytes(&self, index: u16) -> (r: Result<ByteRegion, Error>)
        ensures
            match spec_blob(self@, index) {
                Ok(b) => (r matches Ok(region) && region@ == b),
                Err(e) => r matches Err(re) && re == e,
            },
    {
        proof {
            use_type_invariant(self);
        }
        let i = index as usize;
        if i + 1 >= self.blob_offsets.len() {
            return Err(Error::Arg);
        }
        match &self.plain {
            Some(data) => blob_of_shared(data, self.blob_offsets.as_slice(), index),
            None => {
                let data = self.decode()?;
                blob_of(data, self.blob_offsets.as_slice(), index)
            },
        }
    }
}

} // verus!
