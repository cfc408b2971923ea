//! Basic building blocks shared by the Jubako structures: byte sizes, fixed
//! byte arrays and the readers of little-endian values from a byte buffer.
use crate::error::Error;
use crate::ints::{decode_le, extend_sign, le_value, lemma_le_value_bound, lemma_pow256_mono, sign_extend};
use vstd::prelude::*;
use vstd::slice::{slice_subrange, slice_to_vec};

verus! {

/// The number of bytes (1 to 8) used to store an integer.
#[derive(Debug, Clone, Copy, PartialEq, Eq, Structural)]
pub enum ByteSize {
    U1,
    U2,
    U3,
    U4,
    U5,
    U6,
    U7,
    U8,
}

impl ByteSize {
    pub open spec fn spec_len(self) -> nat {
        match self {
            ByteSize::U1 => 1,
            ByteSize::U2 => 2,
            ByteSize::U3 => 3,
            ByteSize::U4 => 4,
            ByteSize::U5 => 5,
            ByteSize::U6 => 6,
            ByteSize::U7 => 7,
            ByteSize::U8 => 8,
        }
    }

    /// The byte size of length `n`, if `n` is between 1 and 8.
    pub open spec fn spec_from_len(n: int) -> Option<ByteSize> {
        if n == 1 {
            Some(ByteSize::U1)
        } else if n == 2 {
            Some(ByteSize::U2)
        } else if n == 3 {
            Some(ByteSize::U3)
        } else if n == 4 {
            Some(ByteSize::U4)
        } else if n == 5 {
            Some(ByteSize::U5)
        } else if n == 6 {
            Some(ByteSize::U6)
        } else if n == 7 {
            Some(ByteSize::U7)
        } else if n == 8 {
            Some(ByteSize::U8)
        } else {
            None
        }
    }

    /// The number of bytes.
    pub fn len(&self) -> (r: usize)
        ensures
            r == self.spec_len(),
            1 <= r <= 8,
    {
        match self {
            ByteSize::U1 => 1,
            ByteSize::U2 => 2,
            ByteSize::U3 => 3,
            ByteSize::U4 => 4,
            ByteSize::U5 => 5,
            ByteSize::U6 => 6,
            ByteSize::U7 => 7,
            ByteSize::U8 => 8,
        }
    }

    /// The byte size of length `n`, if `n` is between 1 and 8.
    pub fn from_len(n: usize) -> (r: Option<ByteSize>)
        ensures
            r == Self::spec_from_len(n as int),
            r matches Some(b) ==> b.spec_len() == n,
    {
        if n == 1 {
            Some(ByteSize::U1)
        } else if n == 2 {
            Some(ByteSize::U2)
        } else if n == 3 {
            Some(ByteSize::U3)
        } else if n == 4 {
            Some(ByteSize::U4)
        } else if n == 5 {
            Some(ByteSize::U5)
        } else if n == 6 {
            Some(ByteSize::U6)
        } else if n == 7 {
            Some(ByteSize::U7)
        } else if n == 8 {
            Some(ByteSize::U8)
        } else {
            None
        }
    }
}

/// The byte size of the length of a byte size is that byte size: `from_len` undoes `len`.
pub proof fn lemma_from_len_len(b: ByteSize)
    ensures
        ByteSize::spec_from_len(b.spec_len() as int) == Some(b),
{
}

/// The fixed part of an array value: at most 31 bytes, padded with zeros.
#[derive(Debug, Clone, Copy, PartialEq, Eq)]
pub struct BaseArray {
    pub data: [u8; 31],
}

/// `s` padded with zeros up to 31 bytes.
pub open spec fn padded31(s: Seq<u8>) -> Seq<u8> {
    s + Seq::new((31 - s.len()) as nat, |i: int| 0u8)
}

impl View for BaseArray {
    type V = Seq<u8>;

    open spec fn view(&self) -> Seq<u8> {
        self.data@
    }
}

impl BaseArray {
    /// A base array holding the bytes of `data` followed by zeros.
    pub fn new(data: &[u8]) -> (r: BaseArray)
        requires
            data@.len() <= 31,
        ensures
            r@ == padded31(data@),
    {
        let mut arr = [0u8; 31];
        let n = data.len();
        let mut i: usize = 0;
        while i < n
            invariant
                n == data@.len(),
                n <= 31,
                i <= n,
                arr@.len() == 31,
                forall|j: int| 0 <= j < i ==> arr@[j] == data@[j],
                forall|j: int| i <= j < 31 ==> arr@[j] == 0u8,
            decreases n - i,
        {
            arr[i] = data[i];
            i = i + 1;
        }
        assert(arr@ =~= padded31(data@));
        BaseArray { data: arr }
    }
}

/// Whether `c` is a continuation byte of UTF-8 (binary 10xxxxxx).
pub open spec fn utf8_cont(c: u8) -> bool {
    0x80 <= c <= 0xBF
}

/// Whether the bytes of `b` from `i` on are well-formed UTF-8: a sequence of code points,
/// each in its shortest form, none a surrogate and none above U+10FFFF (the table of
/// well-formed byte sequences of the Unicode standard).
pub open spec fn utf8_from(b: Seq<u8>, i: int) -> bool
    decreases b.len() - i,
{
    if i < 0 || i >= b.len() {
        true
    } else {
        let c = b[i];
        if c < 0x80 {
            utf8_from(b, i + 1)
        } else if 0xC2 <= c <= 0xDF {
            i + 1 < b.len() && utf8_cont(b[i + 1]) && utf8_from(b, i + 2)
        } else if 0xE0 <= c <= 0xEF {
            let lo: u8 = if c == 0xE0 { 0xA0 } else { 0x80 };
            let hi: u8 = if c == 0xED { 0x9F } else { 0xBF };
            i + 2 < b.len() && lo <= b[i + 1] <= hi && utf8_cont(b[i + 2]) && utf8_from(b, i + 3)
        } else if 0xF0 <= c <= 0xF4 {
            let lo: u8 = if c == 0xF0 { 0x90 } else { 0x80 };
            let hi: u8 = if c == 0xF4 { 0x8F } else { 0xBF };
            i + 3 < b.len() && lo <= b[i + 1] <= hi && utf8_cont(b[i + 2]) && utf8_cont(b[i + 3]) && utf8_from(
                b,
                i + 4,
            )
        } else {
            false
        }
    }
}

/// Whether the bytes are valid UTF-8.
pub open spec fn is_utf8(b: Seq<u8>) -> bool {
    utf8_from(b, 0)
}

/// `std::str::from_utf8` of std, asked only whether it succeeds: it does exactly when
/// the bytes are valid UTF-8, as [is_utf8] states it.
#[verifier::external_body]
pub(crate) fn valid_utf8(b: &[u8]) -> (r: bool)
    ensures
        r == is_utf8(b@),
{
    std::str::from_utf8(b).is_ok()
}

/// Whether `n` bytes starting at `pos` lie inside `s`.
pub open spec fn in_bounds(s: Seq<u8>, pos: int, n: int) -> bool {
    0 <= pos && 0 <= n && pos + n <= s.len()
}

/// The little-endian value of the `n` bytes of `s` starting at `pos`.
pub open spec fn le_at(s: Seq<u8>, pos: int, n: nat) -> nat {
    le_value(s.subrange(pos, pos + n))
}

/// Reading a byte at `pos`.
pub open spec fn spec_u8_at(s: Seq<u8>, pos: int) -> Result<u8, Error> {
    if in_bounds(s, pos, 1) {
        Ok(s[pos])
    } else {
        Err(Error::UnexpectedEnd)
    }
}

/// Reading an `n`-byte little-endian unsigned integer at `pos`.
pub open spec fn spec_uint_at(s: Seq<u8>, pos: int, n: nat) -> Result<u64, Error> {
    if in_bounds(s, pos, n as int) {
        Ok(le_at(s, pos, n) as u64)
    } else {
        Err(Error::UnexpectedEnd)
    }
}

/// Reading an `n`-byte little-endian signed integer at `pos`.
pub open spec fn spec_int_at(s: Seq<u8>, pos: int, n: nat) -> Result<i64, Error> {
    if in_bounds(s, pos, n as int) {
        Ok(sign_extend(le_at(s, pos, n), n) as i64)
    } else {
        Err(Error::UnexpectedEnd)
    }
}

/// Reading a length-prefixed byte string at `pos`: its bytes and the position after it.
pub open spec fn spec_pstring_at(s: Seq<u8>, pos: int) -> Result<(Seq<u8>, int), Error> {
    if !in_bounds(s, pos, 1) {
        Err(Error::UnexpectedEnd)
    } else if !in_bounds(s, pos + 1, s[pos] as int) {
        Err(Error::UnexpectedEnd)
    } else {
        Ok((s.subrange(pos + 1, pos + 1 + s[pos]), pos + 1 + s[pos]))
    }
}

/// The little-endian integer of at most 8 bytes fits in 64 bits.
pub proof fn lemma_le_at_bound(s: Seq<u8>, pos: int, n: nat)
    requires
        in_bounds(s, pos, n as int),
        n <= 8,
    ensures
        le_at(s, pos, n) < crate::ints::pow256(n),
        le_at(s, pos, n) < 0x1_0000_0000_0000_0000,
{
    lemma_le_value_bound(s.subrange(pos, pos + n));
    lemma_pow256_mono(n, 8);
    crate::ints::lemma_pow256_values();
}

/// Reads the byte at `pos`.
pub fn read_u8_at(buf: &[u8], pos: usize) -> (r: Result<u8, Error>)
    ensures
        r == spec_u8_at(buf@, pos as int),
{
    if pos < buf.len() {
        Ok(buf[pos])
    } else {
        Err(Error::UnexpectedEnd)
    }
}

/// Reads the `n`-byte little-endian unsigned integer at `pos`.
pub fn read_uint_at(buf: &[u8], pos: usize, n: usize) -> (r: Result<u64, Error>)
    requires
        n <= 8,
    ensures
        r == spec_uint_at(buf@, pos as int, n as nat),
{
    if n <= buf.len() && pos <= buf.len() - n {
        Ok(decode_le(buf, pos, n))
    } else {
        Err(Error::UnexpectedEnd)
    }
}

/// Reads the `n`-byte little-endian unsigned integer at `base + extra`, a position that
/// may lie past what a `usize` holds.
pub fn read_uint_at_sum(buf: &[u8], base: u64, extra: u64, n: usize) -> (r: Result<u64, Error>)
    requires
        n <= 8,
    ensures
        r == spec_uint_at(buf@, base + extra, n as nat),
{
    let pos = base as u128 + extra as u128;
    if pos > buf.len() as u128 {
        Err(Error::UnexpectedEnd)
    } else {
        read_uint_at(buf, pos as usize, n)
    }
}

/// Reads the `n`-byte little-endian signed integer at `pos`.
pub fn read_int_at(buf: &[u8], pos: usize, n: usize) -> (r: Result<i64, Error>)
    requires
        1 <= n <= 8,
    ensures
        r == spec_int_at(buf@, pos as int, n as nat),
{
    if n <= buf.len() && pos <= buf.len() - n {
        let v = decode_le(buf, pos, n);
        proof {
            lemma_le_at_bound(buf@, pos as int, n as nat);
        }
        Ok(extend_sign(v, n))
    } else {
        Err(Error::UnexpectedEnd)
    }
}

/// Copies the `n` bytes of `buf` starting at `pos`.
pub fn read_bytes_at(buf: &[u8], pos: usize, n: usize) -> (r: Result<Vec<u8>, Error>)
    ensures
        in_bounds(buf@, pos as int, n as int) ==> (r matches Ok(v) && v@ == buf@.subrange(
            pos as int,
            pos + n,
        )),
        !in_bounds(buf@, pos as int, n as int) ==> r == Err::<Vec<u8>, Error>(Error::UnexpectedEnd),
{
    if n <= buf.len() && pos <= buf.len() - n {
        let sub = slice_subrange(buf, pos, pos + n);
        Ok(slice_to_vec(sub))
    } else {
        Err(Error::UnexpectedEnd)
    }
}

/// Reads the length-prefixed byte string at `pos` and returns it with the position after it.
pub fn read_pstring_at(buf: &[u8], pos: usize) -> (r: Result<(Vec<u8>, usize), Error>)
    ensures
        match spec_pstring_at(buf@, pos as int) {
            Ok((v, end)) => (r matches Ok((w, e)) && w@ == v && e == end),
            Err(err) => (r matches Err(e) && e == err),
        },
{
    let blen = buf.len();
    let len = read_u8_at(buf, pos)?;
    let start = pos + 1;
    let v = read_bytes_at(buf, start, len as usize)?;
    Ok((v, start + len as usize))
}

/// Entry `k` of an array of 8-byte pointers that starts at `array_pos` of `s`.
pub open spec fn pointer_entry(s: Seq<u8>, array_pos: int, k: int) -> Seq<u8> {
    s.subrange(array_pos + 8 * k, array_pos + 8 * k + 8)
}

/// The size (first 2 bytes) and the position (last 6 bytes) that an 8-byte pointer
/// entry holds, little-endian.
pub open spec fn pointer_size(e: Seq<u8>) -> int {
    le_value(e.subrange(0, 2)) as int
}

/// The position (last 6 bytes) that an 8-byte pointer entry holds, little-endian.
pub open spec fn pointer_position(e: Seq<u8>) -> int {
    le_value(e.subrange(2, 8)) as int
}

/// Reading the size and the position of entry `k` of a pointer array reads the two
/// parts of that entry.
pub proof fn lemma_pointer_entry(s: Seq<u8>, array_pos: int, k: int)
    requires
        in_bounds(s, array_pos + 8 * k, 8),
    ensures
        spec_uint_at(s, array_pos + 8 * k, 2) == Ok::<u64, Error>(pointer_size(pointer_entry(s, array_pos, k)) as u64),
        spec_uint_at(s, array_pos + 8 * k + 2, 6) == Ok::<u64, Error>(
            pointer_position(pointer_entry(s, array_pos, k)) as u64,
        ),
        pointer_size(pointer_entry(s, array_pos, k)) < 0x1_0000,
        pointer_position(pointer_entry(s, array_pos, k)) < 0x1_0000_0000_0000,
{
    let p = array_pos + 8 * k;
    let e = pointer_entry(s, array_pos, k);
    assert(e.subrange(0, 2) =~= s.subrange(p, p + 2));
    assert(e.subrange(2, 8) =~= s.subrange(p + 2, p + 8));
    lemma_le_at_bound(s, p, 2);
    lemma_le_at_bound(s, p + 2, 6);
    crate::ints::lemma_pow256_values();
}

} // verus!
