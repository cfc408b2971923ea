//! The description of the properties of an entry, as stored in an entry store.
use crate::bases::{
    padded31, read_pstring_at, read_u8_at, read_uint_at, read_int_at, read_bytes_at, spec_int_at,
    spec_pstring_at, spec_u8_at, spec_uint_at, in_bounds, BaseArray, ByteSize,
};
use crate::error::Error;
use vstd::prelude::*;

verus! {

/// How a deported integer finds its value: a fixed key, or a key stored in the entry.
#[derive(Debug, Clone, Copy, PartialEq, Eq, Structural)]
pub enum DeportedDefault {
    /// All entries use the value stored under this key.
    Value(u64),
    /// Each entry stores a key of this size.
    KeySize(ByteSize),
}

/// Where the deported part of an array is stored.
#[derive(Debug, Clone, Copy, PartialEq, Eq, Structural)]
pub struct DeportedInfo {
    /// The size of the key stored in the entry.
    pub id_size: ByteSize,
    /// The value store holding the deported data.
    pub value_store_idx: u8,
}

/// The kind of a property, as specified in the store.
#[allow(inconsistent_fields)]
#[derive(Debug, Clone, Copy, PartialEq, Eq)]
pub enum PropertyKind {
    Padding,
    ContentAddress { pack_id_size: ByteSize, content_id_size: ByteSize, default_pack_id: Option<u16> },
    UnsignedInt { int_size: ByteSize, default: Option<u64> },
    SignedInt { int_size: ByteSize, default: Option<i64> },
    DeportedUnsignedInt { int_size: ByteSize, value_store_idx: u8, id: DeportedDefault },
    DeportedSignedInt { int_size: ByteSize, value_store_idx: u8, id: DeportedDefault },
    Array {
        array_len_size: Option<ByteSize>,
        fixed_array_len: u8,
        deported_info: Option<DeportedInfo>,
        default: Option<(u64, BaseArray, Option<u64>)>,
    },
    VariantId,
}

/// The mathematical content of a [PropertyKind]: the base array becomes its bytes.
#[allow(inconsistent_fields)]
pub enum PropertyKindV {
    Padding,
    ContentAddress { pack_id_size: ByteSize, content_id_size: ByteSize, default_pack_id: Option<u16> },
    UnsignedInt { int_size: ByteSize, default: Option<u64> },
    SignedInt { int_size: ByteSize, default: Option<i64> },
    DeportedUnsignedInt { int_size: ByteSize, value_store_idx: u8, id: DeportedDefault },
    DeportedSignedInt { int_size: ByteSize, value_store_idx: u8, id: DeportedDefault },
    Array {
        array_len_size: Option<ByteSize>,
        fixed_array_len: u8,
        deported_info: Option<DeportedInfo>,
        default: Option<(u64, Seq<u8>, Option<u64>)>,
    },
    VariantId,
}

impl View for PropertyKind {
    type V = PropertyKindV;

    open spec fn view(&self) -> PropertyKindV {
        match *self {
            PropertyKind::Padding => PropertyKindV::Padding,
            PropertyKind::ContentAddress { pack_id_size, content_id_size, default_pack_id } =>
                PropertyKindV::ContentAddress { pack_id_size, content_id_size, default_pack_id },
            PropertyKind::UnsignedInt { int_size, default } => PropertyKindV::UnsignedInt {
                int_size,
                default,
            },
            PropertyKind::SignedInt { int_size, default } => PropertyKindV::SignedInt {
                int_size,
                default,
            },
            PropertyKind::DeportedUnsignedInt { int_size, value_store_idx, id } =>
                PropertyKindV::DeportedUnsignedInt { int_size, value_store_idx, id },
            PropertyKind::DeportedSignedInt { int_size, value_store_idx, id } =>
                PropertyKindV::DeportedSignedInt { int_size, value_store_idx, id },
            PropertyKind::Array { array_len_size, fixed_array_len, deported_info, default } =>
                PropertyKindV::Array {
                array_len_size,
                fixed_array_len,
                deported_info,
                default: match default {
                    None => None,
                    Some((len, base, key)) => Some((len, base@, key)),
                },
            },
            PropertyKind::VariantId => PropertyKindV::VariantId,
        }
    }
}

/// A property definition as stored: the size it takes in an entry, its name and its kind.
#[derive(Debug, Clone, PartialEq, Eq)]
pub struct RawProperty {
    pub size: usize,
    pub name: Vec<u8>,
    pub kind: PropertyKind,
}

/// The mathematical content of a [RawProperty].
pub struct RawPropertyV {
    pub size: nat,
    pub name: Seq<u8>,
    pub kind: PropertyKindV,
}

impl View for RawProperty {
    type V = RawPropertyV;

    open spec fn view(&self) -> RawPropertyV {
        RawPropertyV { size: self.size as nat, name: self.name@, kind: self.kind@ }
    }
}

/// Kind, size and end position of the property data of a content address (type 1).
pub open spec fn spec_content_address(s: Seq<u8>, p: int, d: u8) -> Result<
    (PropertyKindV, nat, int),
    Error,
> {
    let pack_id_len = ((d % 8) / 4 + 1) as nat;
    let content_id_len = (d % 4 + 1) as nat;
    let pack_id_size = ByteSize::spec_from_len(pack_id_len as int).unwrap();
    let content_id_size = ByteSize::spec_from_len(content_id_len as int).unwrap();
    if d >= 8 {
        match spec_uint_at(s, p, pack_id_len) {
            Err(e) => Err(e),
            Ok(v) => Ok(
                (
                    PropertyKindV::ContentAddress {
                        pack_id_size,
                        content_id_size,
                        default_pack_id: Some(v as u16),
                    },
                    content_id_len,
                    p + pack_id_len,
                ),
            ),
        }
    } else {
        Ok(
            (
                PropertyKindV::ContentAddress { pack_id_size, content_id_size, default_pack_id: None },
                content_id_len + pack_id_len,
                p,
            ),
        )
    }
}

/// Kind, size and end position of the property data of a plain integer (types 2 and 3).
pub open spec fn spec_int_property(s: Seq<u8>, p: int, d: u8, signed: bool) -> Result<
    (PropertyKindV, nat, int),
    Error,
> {
    let int_len = (d % 8 + 1) as nat;
    let int_size = ByteSize::spec_from_len(int_len as int).unwrap();
    if d >= 8 {
        if signed {
            match spec_int_at(s, p, int_len) {
                Err(e) => Err(e),
                Ok(v) => Ok((PropertyKindV::SignedInt { int_size, default: Some(v) }, 0, p + int_len)),
            }
        } else {
            match spec_uint_at(s, p, int_len) {
                Err(e) => Err(e),
                Ok(v) => Ok(
                    (PropertyKindV::UnsignedInt { int_size, default: Some(v) }, 0, p + int_len),
                ),
            }
        }
    } else {
        if signed {
            Ok((PropertyKindV::SignedInt { int_size, default: None }, int_len, p))
        } else {
            Ok((PropertyKindV::UnsignedInt { int_size, default: None }, int_len, p))
        }
    }
}

/// The deported integer kind made of its parts.
pub open spec fn deported_kind(signed: bool, int_size: ByteSize, value_store_idx: u8, id: DeportedDefault) -> PropertyKindV {
    if signed {
        PropertyKindV::DeportedSignedInt { int_size, value_store_idx, id }
    } else {
        PropertyKindV::DeportedUnsignedInt { int_size, value_store_idx, id }
    }
}

/// Kind, size and end position of the property data of a deported integer (types 10 and 11).
pub open spec fn spec_deported_property(s: Seq<u8>, p: int, d: u8, signed: bool) -> Result<
    (PropertyKindV, nat, int),
    Error,
> {
    let int_size = ByteSize::spec_from_len((d % 8 + 1) as int).unwrap();
    match spec_u8_at(s, p) {
        Err(e) => Err(e),
        Ok(kb) => {
            let key_len = (kb % 8 + 1) as nat;
            let key_size = ByteSize::spec_from_len(key_len as int).unwrap();
            match spec_u8_at(s, p + 1) {
                Err(e) => Err(e),
                Ok(vsi) => if d >= 8 {
                    match spec_uint_at(s, p + 2, key_len) {
                        Err(e) => Err(e),
                        Ok(key) => Ok(
                            (
                                deported_kind(signed, int_size, vsi, DeportedDefault::Value(key)),
                                0,
                                p + 2 + key_len,
                            ),
                        ),
                    }
                } else {
                    Ok(
                        (
                            deported_kind(signed, int_size, vsi, DeportedDefault::KeySize(key_size)),
                            key_len,
                            p + 2,
                        ),
                    )
                },
            }
        },
    }
}

/// The default value of an array property, read at `p`: length, base bytes, deported key.
pub open spec fn spec_array_default(s: Seq<u8>, p: int, len_size: nat, fixed: nat, key_len: nat) -> Result<
    ((u64, Seq<u8>, Option<u64>), int),
    Error,
> {
    match spec_uint_at(s, p, len_size) {
        Err(e) => Err(e),
        Ok(size) => if !in_bounds(s, p + len_size, fixed as int) {
            Err(Error::UnexpectedEnd)
        } else {
            let base = padded31(s.subrange(p + len_size, p + len_size + fixed));
            let q = p + len_size + fixed;
            if key_len != 0 {
                match spec_uint_at(s, q, key_len) {
                    Err(e) => Err(e),
                    Ok(key) => Ok(((size, base, Some(key)), q + key_len)),
                }
            } else {
                Ok(((size, base, None), q))
            }
        },
    }
}

/// Kind, size and end position of the property data of an array (type 5).
pub open spec fn spec_array_property(s: Seq<u8>, p: int, d: u8) -> Result<
    (PropertyKindV, nat, int),
    Error,
> {
    let len_size = (d % 4) as nat;
    let array_len_size = if len_size != 0 {
        ByteSize::spec_from_len(len_size as int)
    } else {
        None
    };
    match spec_u8_at(s, p) {
        Err(e) => Err(e),
        Ok(c) => {
            let fixed = c % 32;
            let key_len = (c / 32) as nat;
            let deported = if key_len != 0 {
                match spec_u8_at(s, p + 1) {
                    Err(e) => Err(e),
                    Ok(vsi) => Ok(
                        (
                            Some(
                                DeportedInfo {
                                    id_size: ByteSize::spec_from_len(key_len as int).unwrap(),
                                    value_store_idx: vsi,
                                },
                            ),
                            p + 2,
                        ),
                    ),
                }
            } else {
                Ok((None, p + 1))
            };
            match deported {
                Err(e) => Err(e),
                Ok((deported_info, q)) => if d >= 8 {
                    if len_size == 0 {
                        Err(Error::InvalidFormat)
                    } else {
                        match spec_array_default(s, q, len_size, fixed as nat, key_len) {
                            Err(e) => Err(e),
                            Ok((default, end)) => Ok(
                                (
                                    PropertyKindV::Array {
                                        array_len_size,
                                        fixed_array_len: fixed,
                                        deported_info,
                                        default: Some(default),
                                    },
                                    0,
                                    end,
                                ),
                            ),
                        }
                    }
                } else {
                    Ok(
                        (
                            PropertyKindV::Array {
                                array_len_size,
                                fixed_array_len: fixed,
                                deported_info,
                                default: None,
                            },
                            (len_size + fixed + key_len) as nat,
                            q,
                        ),
                    )
                },
            }
        },
    }
}

/// Kind, size and end position of the property data whose type byte is `info`, read at `p`.
pub open spec fn spec_property_data(s: Seq<u8>, p: int, info: u8) -> Result<
    (PropertyKindV, nat, int),
    Error,
> {
    let t = info / 16;
    let d = info % 16;
    if t == 1 {
        spec_content_address(s, p, d)
    } else if t == 2 {
        spec_int_property(s, p, d, false)
    } else if t == 3 {
        spec_int_property(s, p, d, true)
    } else if t == 5 {
        spec_array_property(s, p, d)
    } else if t == 8 {
        Ok((PropertyKindV::VariantId, 1, p))
    } else if t == 10 {
        spec_deported_property(s, p, d, false)
    } else if t == 11 {
        spec_deported_property(s, p, d, true)
    } else {
        Err(Error::InvalidFormat)
    }
}

/// The property definition stored at `pos` and the position just after it.
///
/// The first byte holds the property type (high nibble) and type data (low nibble);
/// then come the bytes the type needs and, but for padding, the property name.
pub open spec fn spec_raw_property(s: Seq<u8>, pos: int) -> Result<(RawPropertyV, int), Error> {
    match spec_u8_at(s, pos) {
        Err(e) => Err(e),
        Ok(info) => if info / 16 == 0 {
            Ok(
                (
                    RawPropertyV {
                        size: (info % 16 + 1) as nat,
                        name: Seq::empty(),
                        kind: PropertyKindV::Padding,
                    },
                    pos + 1,
                ),
            )
        } else {
            match spec_property_data(s, pos + 1, info) {
                Err(e) => Err(e),
                Ok((kind, size, q)) => match spec_pstring_at(s, q) {
                    Err(e) => Err(e),
                    Ok((name, end)) => Ok((RawPropertyV { size, name, kind }, end)),
                },
            }
        },
    }
}

/// A sequence of `n` property definitions stored from `pos` on.
pub open spec fn spec_raw_properties(s: Seq<u8>, pos: int, n: nat) -> Result<
    (Seq<RawPropertyV>, int),
    Error,
>
    decreases n,
{
    if n == 0 {
        Ok((Seq::empty(), pos))
    } else {
        match spec_raw_properties(s, pos, (n - 1) as nat) {
            Err(e) => Err(e),
            Ok((props, q)) => match spec_raw_property(s, q) {
                Err(e) => Err(e),
                Ok((p, end)) => Ok((props.push(p), end)),
            },
        }
    }
}

/// A layout's property list: a count byte followed by the property definitions.
pub open spec fn spec_raw_layout(s: Seq<u8>, pos: int) -> Result<(Seq<RawPropertyV>, int), Error> {
    match spec_u8_at(s, pos) {
        Err(e) => Err(e),
        Ok(n) => spec_raw_properties(s, pos + 1, n as nat),
    }
}

fn parse_content_address(buf: &[u8], p: usize, d: u8) -> (r: Result<(PropertyKind, usize, usize), Error>)
    requires
        d < 16,
    ensures
        match spec_content_address(buf@, p as int, d) {
            Ok((k, size, end)) => (r matches Ok((rk, rs, re)) && rk@ == k && rs == size && re == end),
            Err(e) => r == Err::<(PropertyKind, usize, usize), Error>(e),
        },
{
    let blen = buf.len();
    let pack_id_len: usize = ((d % 8) / 4 + 1) as usize;
    let content_id_len: usize = (d % 4 + 1) as usize;
    let pack_id_size = ByteSize::from_len(pack_id_len).unwrap();
    let content_id_size = ByteSize::from_len(content_id_len).unwrap();
    if d >= 8 {
        let v = read_uint_at(buf, p, pack_id_len)?;
        proof {
            crate::bases::lemma_le_at_bound(buf@, p as int, pack_id_len as nat);
            crate::ints::lemma_pow256_values();
            crate::ints::lemma_pow256_mono(pack_id_len as nat, 2);
        }
        Ok(
            (
                PropertyKind::ContentAddress {
                    pack_id_size,
                    content_id_size,
                    default_pack_id: Some(v as u16),
                },
                content_id_len,
                p + pack_id_len,
            ),
        )
    } else {
        Ok(
            (
                PropertyKind::ContentAddress { pack_id_size, content_id_size, default_pack_id: None },
                content_id_len + pack_id_len,
                p,
            ),
        )
    }
}

fn parse_int_property(buf: &[u8], p: usize, d: u8, signed: bool) -> (r: Result<
    (PropertyKind, usize, usize),
    Error,
>)
    requires
        d < 16,
    ensures
        match spec_int_property(buf@, p as int, d, signed) {
            Ok((k, size, end)) => (r matches Ok((rk, rs, re)) && rk@ == k && rs == size && re == end),
            Err(e) => r == Err::<(PropertyKind, usize, usize), Error>(e),
        },
{
    let blen = buf.len();
    let int_len: usize = (d % 8 + 1) as usize;
    let int_size = ByteSize::from_len(int_len).unwrap();
    if d >= 8 {
        if signed {
            let v = read_int_at(buf, p, int_len)?;
            Ok((PropertyKind::SignedInt { int_size, default: Some(v) }, 0, p + int_len))
        } else {
            let v = read_uint_at(buf, p, int_len)?;
            Ok((PropertyKind::UnsignedInt { int_size, default: Some(v) }, 0, p + int_len))
        }
    } else {
        if signed {
            Ok((PropertyKind::SignedInt { int_size, default: None }, int_len, p))
        } else {
            Ok((PropertyKind::UnsignedInt { int_size, default: None }, int_len, p))
        }
    }
}

fn parse_deported_property(buf: &[u8], p: usize, d: u8, signed: bool) -> (r: Result<
    (PropertyKind, usize, usize),
    Error,
>)
    requires
        d < 16,
    ensures
        match spec_deported_property(buf@, p as int, d, signed) {
            Ok((k, size, end)) => (r matches Ok((rk, rs, re)) && rk@ == k && rs == size && re == end),
            Err(e) => r == Err::<(PropertyKind, usize, usize), Error>(e),
        },
{
    let blen = buf.len();
    let int_size = ByteSize::from_len((d % 8 + 1) as usize).unwrap();
    let kb = read_u8_at(buf, p)?;
    let key_len: usize = (kb % 8 + 1) as usize;
    let key_size = ByteSize::from_len(key_len).unwrap();
    let vsi = read_u8_at(buf, p + 1)?;
    if d >= 8 {
        let key = read_uint_at(buf, p + 2, key_len)?;
        let id = DeportedDefault::Value(key);
        let kind = if signed {
            PropertyKind::DeportedSignedInt { int_size, value_store_idx: vsi, id }
        } else {
            PropertyKind::DeportedUnsignedInt { int_size, value_store_idx: vsi, id }
        };
        Ok((kind, 0, p + 2 + key_len))
    } else {
        let id = DeportedDefault::KeySize(key_size);
        let kind = if signed {
            PropertyKind::DeportedSignedInt { int_size, value_store_idx: vsi, id }
        } else {
            PropertyKind::DeportedUnsignedInt { int_size, value_store_idx: vsi, id }
        };
        Ok((kind, key_len, p + 2))
    }
}

fn parse_array_default(buf: &[u8], p: usize, len_size: usize, fixed: usize, key_len: usize) -> (r: Result<
    ((u64, BaseArray, Option<u64>), usize),
    Error,
>)
    requires
        1 <= len_size <= 8,
        fixed <= 31,
        key_len <= 8,
    ensures
        match spec_array_default(buf@, p as int, len_size as nat, fixed as nat, key_len as nat) {
            Ok(((size, base, key), end)) => (r matches Ok(((rs, rb, rk), re)) && rs == size && rb@
                == base && rk == key && re == end),
            Err(e) => r == Err::<((u64, BaseArray, Option<u64>), usize), Error>(e),
        },
{
    let blen = buf.len();
    let size = read_uint_at(buf, p, len_size)?;
    let q0 = p + len_size;
    let bytes = read_bytes_at(buf, q0, fixed)?;
    let base = BaseArray::new(bytes.as_slice());
    let q = q0 + fixed;
    if key_len != 0 {
        let key = read_uint_at(buf, q, key_len)?;
        Ok(((size, base, Some(key)), q + key_len))
    } else {
        Ok(((size, base, None), q))
    }
}

fn parse_array_property(buf: &[u8], p: usize, d: u8) -> (r: Result<(PropertyKind, usize, usize), Error>)
    requires
        d < 16,
    ensures
        match spec_array_property(buf@, p as int, d) {
            Ok((k, size, end)) => (r matches Ok((rk, rs, re)) && rk@ == k && rs == size && re == end),
            Err(e) => r == Err::<(PropertyKind, usize, usize), Error>(e),
        },
{
    let blen = buf.len();
    let len_size: usize = (d % 4) as usize;
    let array_len_size = if len_size != 0 {
        ByteSize::from_len(len_size)
    } else {
        None
    };
    let c = read_u8_at(buf, p)?;
    let fixed: u8 = c % 32;
    let key_len: usize = (c / 32) as usize;
    let (deported_info, q) = if key_len != 0 {
        let vsi = read_u8_at(buf, p + 1)?;
        (
            Some(
                DeportedInfo { id_size: ByteSize::from_len(key_len).unwrap(), value_store_idx: vsi },
            ),
            p + 2,
        )
    } else {
        (None, p + 1)
    };
    if d >= 8 {
        if len_size == 0 {
            Err(Error::InvalidFormat)
        } else {
            let (default, end) = parse_array_default(buf, q, len_size, fixed as usize, key_len)?;
            Ok(
                (
                    PropertyKind::Array {
                        array_len_size,
                        fixed_array_len: fixed,
                        deported_info,
                        default: Some(default),
                    },
                    0,
                    end,
                ),
            )
        }
    } else {
        Ok(
            (
                PropertyKind::Array {
                    array_len_size,
                    fixed_array_len: fixed,
                    deported_info,
                    default: None,
                },
                len_size + fixed as usize + key_len,
                q,
            ),
        )
    }
}

impl RawProperty {
    /// A property definition of the given kind, size and name.
    pub fn new(kind: PropertyKind, size: usize, name: Vec<u8>) -> (r: RawProperty)
        ensures
            r.kind == kind,
            r.size == size,
            r.name == name,
    {
        RawProperty { size, kind, name }
    }

    /// Whether this property marks the start of a variant.
    pub fn is_variant_id(&self) -> (r: bool)
        ensures
            r == (self.kind@ is VariantId),
    {
        match self.kind {
            PropertyKind::VariantId => true,
            _ => false,
        }
    }

    /// Parses the property definition stored at `pos`; returns it with the position after it.
    pub fn parse(buf: &[u8], pos: usize) -> (r: Result<(RawProperty, usize), Error>)
        ensures
            match spec_raw_property(buf@, pos as int) {
                Ok((p, end)) => (r matches Ok((rp, re)) && rp@ == p && re == end),
                Err(e) => r == Err::<(RawProperty, usize), Error>(e),
            },
    {
        let blen = buf.len();
        let info = read_u8_at(buf, pos)?;
        let t = info / 16;
        let d = info % 16;
        let p = pos + 1;
        if t == 0 {
            return Ok((RawProperty { size: (d + 1) as usize, name: Vec::new(), kind: PropertyKind::Padding }, p));
        }
        let (kind, size, q) = if t == 1 {
            parse_content_address(buf, p, d)?
        } else if t == 2 {
            parse_int_property(buf, p, d, false)?
        } else if t == 3 {
            parse_int_property(buf, p, d, true)?
        } else if t == 5 {
            parse_array_property(buf, p, d)?
        } else if t == 8 {
            (PropertyKind::VariantId, 1, p)
        } else if t == 10 {
            parse_deported_property(buf, p, d, false)?
        } else if t == 11 {
            parse_deported_property(buf, p, d, true)?
        } else {
            return Err(Error::InvalidFormat);
        };
        let (name, end) = read_pstring_at(buf, q)?;
        Ok((RawProperty { size, name, kind }, end))
    }
}

} // verus!

verus! {

/// A read definition takes at most 64 bytes of an entry and at least one byte of the buffer.
pub proof fn lemma_raw_property_size(s: Seq<u8>, pos: int)
    ensures
        spec_raw_property(s, pos) matches Ok((p, end)) ==> p.size <= 64 && pos < end,
{
}

/// Once reading the definitions fails, reading more of them fails the same way.
pub proof fn lemma_raw_properties_err(s: Seq<u8>, pos: int, i: nat, n: nat)
    requires
        i <= n,
        spec_raw_properties(s, pos, i) is Err,
    ensures
        spec_raw_properties(s, pos, n) == spec_raw_properties(s, pos, i),
    decreases n,
{
    if i < n {
        lemma_raw_properties_err(s, pos, i, (n - 1) as nat);
    }
}

/// The views of a sequence of property definitions.
pub open spec fn raw_views(v: Seq<RawProperty>) -> Seq<RawPropertyV> {
    v.map_values(|p: RawProperty| p@)
}

/// The list of property definitions of a layout.
pub struct RawLayout(pub Vec<RawProperty>);

impl RawLayout {
    /// Parses a count byte followed by that many property definitions.
    pub fn parse(buf: &[u8], pos: usize) -> (r: Result<(RawLayout, usize), Error>)
        ensures
            match spec_raw_layout(buf@, pos as int) {
                Ok((ps, end)) => (r matches Ok((rl, re)) && raw_views(rl.0@) == ps && re == end),
                Err(e) => r == Err::<(RawLayout, usize), Error>(e),
            },
    {
        let blen = buf.len();
        let count = read_u8_at(buf, pos)?;
        let n = count as usize;
        let mut props: Vec<RawProperty> = Vec::new();
        let mut q: usize = pos + 1;
        let mut i: usize = 0;
        assert(raw_views(props@) =~= Seq::<RawPropertyV>::empty());
        while i < n
            invariant
                n == count,
                i <= n,
                spec_u8_at(buf@, pos as int) == Ok::<u8, Error>(count),
                spec_raw_properties(buf@, pos + 1, i as nat) == Ok::<(Seq<RawPropertyV>, int), Error>(
                    (raw_views(props@), q as int),
                ),
            decreases n - i,
        {
            let res = RawProperty::parse(buf, q);
            match res {
                Err(e) => {
                    proof {
                        lemma_raw_properties_err(buf@, pos + 1, (i + 1) as nat, n as nat);
                    }
                    return Err(e);
                },
                Ok((p, end)) => {
                    proof {
                        assert(raw_views(props@.push(p)) =~= raw_views(props@).push(p@));
                    }
                    props.push(p);
                    q = end;
                },
            }
            i = i + 1;
        }
        Ok((RawLayout(props), q))
    }
}

} // verus!
