//! Reading fixed-width integers stored most significant byte first.
use crate::bases::in_bounds;
use crate::error::Error;
use crate::ints::{be_value, decode_be, lemma_be_value_bound, lemma_pow256_values, pow256};
use vstd::prelude::*;

verus! {

/// Reads the first byte of `buf`.
pub fn read_u8(buf: &[u8]) -> (r: u8)
    requires
        1 <= buf@.len(),
    ensures
        r == buf@[0],
{
    buf[0]
}

/// Reads the first two bytes of `buf` as a big-endian integer.
pub fn read_u16(buf: &[u8]) -> (r: u16)
    requires
        2 <= buf@.len(),
    ensures
        r == be_value(buf@.subrange(0, 2)),
{
    proof {
        lemma_be_value_bound(buf@.subrange(0, 2));
        lemma_pow256_values();
    }
    decode_be(buf, 0, 2) as u16
}

/// Reads the first four bytes of `buf` as a big-endian integer.
pub fn read_u32(buf: &[u8]) -> (r: u32)
    requires
        4 <= buf@.len(),
    ensures
        r == be_value(buf@.subrange(0, 4)),
{
    proof {
        lemma_be_value_bound(buf@.subrange(0, 4));
        lemma_pow256_values();
    }
    decode_be(buf, 0, 4) as u32
}

/// Reads the first eight bytes of `buf` as a big-endian integer.
pub fn read_u64(buf: &[u8]) -> (r: u64)
    requires
        8 <= buf@.len(),
    ensures
        r == be_value(buf@.subrange(0, 8)),
{
    decode_be(buf, 0, 8)
}

/// Reads the first `size` bytes of `buf` as a big-endian integer.
pub fn read_to_u64(size: usize, buf: &[u8]) -> (r: u64)
    requires
        size <= 8,
        size <= buf@.len(),
    ensures
        r == be_value(buf@.subrange(0, size as int)),
{
    decode_be(buf, 0, size)
}

/// The big-endian value of the `n` bytes of `s` at `pos`.
pub open spec fn spec_be_at(s: Seq<u8>, pos: int, n: nat) -> Result<u64, Error> {
    if in_bounds(s, pos, n as int) {
        Ok(be_value(s.subrange(pos, pos + n)) as u64)
    } else {
        Err(Error::UnexpectedEnd)
    }
}

/// Reads the `n`-byte big-endian integer at `pos`.
pub fn read_be_at(buf: &[u8], pos: usize, n: usize) -> (r: Result<u64, Error>)
    requires
        n <= 8,
    ensures
        r == spec_be_at(buf@, pos as int, n as nat),
{
    if n <= buf.len() && pos <= buf.len() - n {
        Ok(decode_be(buf, pos, n))
    } else {
        Err(Error::UnexpectedEnd)
    }
}

/// The `n` bytes of the big-endian writing of `v` (its lowest `n` bytes).
pub open spec fn be_bytes(v: nat, n: nat) -> Seq<u8>
    decreases n,
{
    if n == 0 {
        Seq::empty()
    } else {
        be_bytes(v / 256, (n - 1) as nat).push((v % 256) as u8)
    }
}

/// Reading back the big-endian writing of a value that fits gives the value.
pub proof fn lemma_be_bytes(v: nat, n: nat)
    requires
        v < pow256(n),
    ensures
        be_bytes(v, n).len() == n,
        be_value(be_bytes(v, n)) == v,
    decreases n,
{
    if n > 0 {
        assert(v / 256 < pow256((n - 1) as nat)) by (nonlinear_arith)
            requires
                v < pow256(n),
                pow256(n) == 256 * pow256((n - 1) as nat),
        ;
        lemma_be_bytes(v / 256, (n - 1) as nat);
        let s = be_bytes(v, n);
        assert(s.drop_last() =~= be_bytes(v / 256, (n - 1) as nat));
        assert(v == (v / 256) * 256 + v % 256) by (nonlinear_arith);
    }
}

/// Appends the `n`-byte big-endian writing of `v`.
pub fn write_be(out: &mut Vec<u8>, v: u64, n: usize)
    requires
        n <= 8,
    ensures
        final(out)@ == old(out)@ + be_bytes(v as nat, n as nat),
    decreases n,
{
    if n > 0 {
        write_be(out, v / 256, n - 1);
        out.push((v % 256) as u8);
        assert(final(out)@ =~= old(out)@ + be_bytes(v as nat, n as nat));
    } else {
        assert(out@ =~= old(out)@ + be_bytes(v as nat, n as nat));
    }
}

} // verus!
