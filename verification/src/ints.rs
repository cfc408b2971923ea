use vstd::prelude::*;

verus! {

/// `256` raised to the power `n`.
pub open spec fn pow256(n: nat) -> nat
    decreases n,
{
    if n == 0 {
        1
    } else {
        256 * pow256((n - 1) as nat)
    }
}

/// The unsigned integer that `s` encodes, least significant byte first.
pub open spec fn le_value(s: Seq<u8>) -> nat
    decreases s.len(),
{
    if s.len() == 0 {
        0
    } else {
        s[0] as nat + 256 * le_value(s.drop_first())
    }
}

/// The unsigned integer that `s` encodes, most significant byte first.
pub open spec fn be_value(s: Seq<u8>) -> nat
    decreases s.len(),
{
    if s.len() == 0 {
        0
    } else {
        be_value(s.drop_last()) * 256 + s.last() as nat
    }
}

/// The two's complement reading of the `n`-byte unsigned value `v`.
pub open spec fn sign_extend(v: nat, n: nat) -> int {
    if n > 0 && v >= pow256(n) / 2 {
        v - pow256(n)
    } else {
        v as int
    }
}

/// A power of 256 is positive.
pub proof fn lemma_pow256_pos(n: nat)
    ensures
        pow256(n) >= 1,
    decreases n,
{
    if n > 0 {
        lemma_pow256_pos((n - 1) as nat);
    }
}

/// Powers of 256 grow with the exponent.
pub proof fn lemma_pow256_mono(a: nat, b: nat)
    requires
        a <= b,
    ensures
        pow256(a) <= pow256(b),
    decreases b,
{
    if a < b {
        lemma_pow256_mono(a, (b - 1) as nat);
        lemma_pow256_pos((b - 1) as nat);
    }
}

/// The powers of 256 up to the eighth.
pub proof fn lemma_pow256_values()
    ensures
        pow256(1) == 0x100,
        pow256(2) == 0x1_0000,
        pow256(3) == 0x100_0000,
        pow256(4) == 0x1_0000_0000,
        pow256(5) == 0x100_0000_0000,
        pow256(6) == 0x1_0000_0000_0000,
        pow256(7) == 0x100_0000_0000_0000,
        pow256(8) == 0x1_0000_0000_0000_0000,
{
    reveal_with_fuel(pow256, 9);
}

/// The little-endian integer of `n` bytes is below 256 to the `n`.
pub proof fn lemma_le_value_bound(s: Seq<u8>)
    ensures
        le_value(s) < pow256(s.len()),
    decreases s.len(),
{
    if s.len() > 0 {
        lemma_le_value_bound(s.drop_first());
    }
}

/// The big-endian integer of `n` bytes is below 256 to the `n`.
pub proof fn lemma_be_value_bound(s: Seq<u8>)
    ensures
        be_value(s) < pow256(s.len()),
    decreases s.len(),
{
    if s.len() > 0 {
        lemma_be_value_bound(s.drop_last());
    }
}

/// Decodes the `n` bytes of `buf` that start at `pos`, least significant first.
pub fn decode_le(buf: &[u8], pos: usize, n: usize) -> (r: u64)
    requires
        n <= 8,
        pos + n <= buf@.len(),
    ensures
        r == le_value(buf@.subrange(pos as int, pos + n)),
{
    let blen = buf.len();
    let mut acc: u64 = 0;
    let mut i: usize = n;
    while i > 0
        invariant
            blen == buf@.len(),
            i <= n,
            n <= 8,
            pos + n <= buf@.len(),
            acc == le_value(buf@.subrange(pos + i, pos + n)),
        decreases i,
    {
        i = i - 1;
        proof {
            let tail = buf@.subrange(pos + i + 1, pos + n);
            lemma_le_value_bound(tail);
            lemma_pow256_mono(tail.len(), 7);
            lemma_pow256_values();
            assert(buf@.subrange(pos + i, pos + n).drop_first() =~= tail);
        }
        acc = acc * 256 + buf[pos + i] as u64;
    }
    acc
}

/// Decodes the `n` bytes of `buf` that start at `pos`, most significant first.
pub fn decode_be(buf: &[u8], pos: usize, n: usize) -> (r: u64)
    requires
        n <= 8,
        pos + n <= buf@.len(),
    ensures
        r == be_value(buf@.subrange(pos as int, pos + n)),
{
    let blen = buf.len();
    let mut acc: u64 = 0;
    let mut i: usize = 0;
    assert(buf@.subrange(pos as int, pos as int) =~= Seq::<u8>::empty());
    while i < n
        invariant
            blen == buf@.len(),
            i <= n,
            n <= 8,
            pos + n <= buf@.len(),
            acc == be_value(buf@.subrange(pos as int, pos + i)),
        decreases n - i,
    {
        proof {
            let head = buf@.subrange(pos as int, pos + i);
            lemma_be_value_bound(head);
            lemma_pow256_mono(head.len(), 7);
            lemma_pow256_values();
            assert(buf@.subrange(pos as int, pos + i + 1).drop_last() =~= head);
        }
        acc = acc * 256 + buf[pos + i] as u64;
        i = i + 1;
    }
    acc
}

/// `256` raised to the power `n`, for `n` below 8.
pub fn pow256_exec(n: usize) -> (r: u64)
    requires
        n < 8,
    ensures
        r == pow256(n as nat),
{
    let mut r: u64 = 1;
    let mut i: usize = 0;
    while i < n
        invariant
            i <= n,
            n < 8,
            r == pow256(i as nat),
        decreases n - i,
    {
        proof {
            lemma_pow256_mono(i as nat, 6);
            lemma_pow256_values();
        }
        r = r * 256;
        i = i + 1;
    }
    r
}

/// The two's complement reading of the `n`-byte unsigned value `v`.
pub fn extend_sign(v: u64, n: usize) -> (r: i64)
    requires
        1 <= n <= 8,
        v < pow256(n as nat),
    ensures
        r == sign_extend(v as nat, n as nat),
{
    proof {
        lemma_pow256_values();
    }
    if n == 8 {
        if v < 0x8000_0000_0000_0000 {
            v as i64
        } else {
            let c: u64 = u64::MAX - v;
            -(c as i64) - 1
        }
    } else {
        let p = pow256_exec(n);
        proof {
            lemma_pow256_mono(n as nat, 7);
        }
        if v >= p / 2 {
            (v as i64) - (p as i64)
        } else {
            v as i64
        }
    }
}

} // verus!
