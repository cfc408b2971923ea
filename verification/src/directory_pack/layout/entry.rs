//! The entries of an index store: their size, their variants, and the reading of their
//! values.
use super::raw_property::{spec_old_raw_property, RawProperty, RawPropertyKind};
use super::variant::{small_defs, variant_props, Property, PropertyKind, Variant};
use crate::bases::{in_bounds, spec_u8_at};
use crate::directory_pack::raw_value::ContentAddress;
use crate::directory_pack::value::{Array, Content, Extend, Value, ValueV};
use crate::error::Error;
use crate::ints::{be_value, lemma_be_value_bound, lemma_pow256_values, sign_extend, pow256, extend_sign};
use crate::primitive::{read_be_at, spec_be_at};
use std::rc::Rc;
use vstd::prelude::*;
use vstd::slice::{slice_subrange, slice_to_vec};

verus! {

/// The description of the entries of an index store: the properties of each variant
/// and the size of an entry.
#[derive(Debug)]
pub struct Entry {
    pub variants: Vec<Rc<Variant>>,
    pub size: u64,
}

/// The mathematical content of an [Entry].
pub struct EntryV {
    pub variants: Seq<Seq<Property>>,
    pub size: u64,
}

/// The properties of each of a sequence of shared variants.
pub open spec fn variants_view(v: Seq<Rc<Variant>>) -> Seq<Seq<Property>> {
    v.map_values(|x: Rc<Variant>| x@)
}

impl View for Entry {
    type V = EntryV;

    open spec fn view(&self) -> EntryV {
        EntryV { variants: variants_view(self.variants@), size: self.size }
    }
}

/// Reads the definitions `k` to `n` (excluded) from `pos` on, cutting them into variants:
/// a variant ends when its definitions fill the entry size; a variant id may only start
/// a variant. Returns the variants, the definitions of an unfinished variant and the
/// position after the definitions.
pub open spec fn entry_run(
    s: Seq<u8>,
    pos: int,
    k: nat,
    n: nat,
    entry_size: int,
    def: Seq<RawProperty>,
    cur: int,
    variants: Seq<Seq<Property>>,
) -> Result<(Seq<Seq<Property>>, Seq<RawProperty>, int), Error>
    decreases n - k,
{
    if k >= n {
        Ok((variants, def, pos))
    } else {
        match spec_old_raw_property(s, pos) {
            Err(e) => Err(e),
            Ok((raw, np)) => if raw.kind == RawPropertyKind::VariantId && def.len() > 0 {
                Err(Error::InvalidFormat)
            } else {
                let def2 = def.push(raw);
                let cur2 = cur + raw.size;
                if cur2 > entry_size {
                    Err(Error::InvalidFormat)
                } else if cur2 == entry_size {
                    match variant_props(def2, 0, 0) {
                        Err(e) => Err(e),
                        Ok(ps) => entry_run(s, np, k + 1, n, entry_size, Seq::empty(), 0, variants.push(ps)),
                    }
                } else {
                    entry_run(s, np, k + 1, n, entry_size, def2, cur2, variants)
                }
            },
        }
    }
}

/// The entry description stored at `pos` and the position after it: the entry size
/// (2 bytes), the variant count, the definition count and the definitions. The last
/// variant may leave the entry size unfilled; the variants must be as many as said.
pub open spec fn spec_old_entry(s: Seq<u8>, pos: int) -> Result<(EntryV, int), Error> {
    match spec_be_at(s, pos, 2) {
        Err(e) => Err(e),
        Ok(entry_size) => match spec_u8_at(s, pos + 2) {
            Err(e) => Err(e),
            Ok(vc) => match spec_u8_at(s, pos + 3) {
                Err(e) => Err(e),
                Ok(count) => match entry_run(s, pos + 4, 0, count as nat, entry_size as int, Seq::empty(), 0, Seq::empty()) {
                    Err(e) => Err(e),
                    Ok((variants, def, end)) => {
                        let last = if def.len() > 0 {
                            match variant_props(def, 0, 0) {
                                Err(e) => Err(e),
                                Ok(ps) => Ok(variants.push(ps)),
                            }
                        } else {
                            Ok(variants)
                        };
                        match last {
                            Err(e) => Err(e),
                            Ok(vs) => if vs.len() != vc {
                                Err(Error::InvalidFormat)
                            } else {
                                Ok((EntryV { variants: vs, size: entry_size }, end))
                            },
                        }
                    },
                },
            },
        },
    }
}

impl Entry {
    /// Reads the entry description stored at `pos`; returns it with the position after it.
    pub fn produce(buf: &[u8], pos: usize) -> (r: Result<(Entry, usize), Error>)
        ensures
            match spec_old_entry(buf@, pos as int) {
                Ok((e, end)) => (r matches Ok((re, rend)) && re@ == e && rend == end),
                Err(e) => r matches Err(re) && re == e,
            },
    {
        let blen = buf.len();
        let entry_size = read_be_at(buf, pos, 2)?;
        if pos + 2 >= blen {
            return Err(Error::UnexpectedEnd);
        }
        let variant_count = buf[pos + 2];
        if pos + 3 >= blen {
            return Err(Error::UnexpectedEnd);
        }
        let count = buf[pos + 3];
        proof {
            lemma_be_value_bound(buf@.subrange(pos as int, pos + 2));
            lemma_pow256_values();
        }
        let ghost s = buf@;
        let mut variants: Vec<Rc<Variant>> = Vec::new();
        let mut def: Vec<RawProperty> = Vec::new();
        let mut current_size: u64 = 0;
        let mut q: usize = pos + 4;
        let mut k: u8 = 0;
        let ghost run0 = entry_run(s, pos + 4, 0, count as nat, entry_size as int, Seq::empty(), 0, Seq::empty());
        assert(def@ =~= Seq::<RawProperty>::empty());
        assert(variants_view(variants@) =~= Seq::<Seq<Property>>::empty());
        while k < count
            invariant
                s == buf@,
                blen == s.len(),
                spec_be_at(s, pos as int, 2) == Ok::<u64, Error>(entry_size),
                spec_u8_at(s, pos + 2) == Ok::<u8, Error>(variant_count),
                spec_u8_at(s, pos + 3) == Ok::<u8, Error>(count),
                k <= count,
                q <= blen,
                entry_size < 0x1_0000,
                current_size <= entry_size,
                def@.len() <= k,
                forall|i: int| 0 <= i < def@.len() ==> (#[trigger] def@[i]).size <= 1032,
                run0 == entry_run(s, pos + 4, 0, count as nat, entry_size as int, Seq::empty(), 0, Seq::empty()),
                run0 == entry_run(s, q as int, k as nat, count as nat, entry_size as int, def@, current_size as int, variants_view(variants@)),
            decreases count - k,
        {
            let (raw, np) = match RawProperty::produce(buf, q) {
                Ok(x) => x,
                Err(e) => return Err(e),
            };
            if raw.kind == RawPropertyKind::VariantId && def.len() > 0 {
                return Err(Error::InvalidFormat);
            }
            let ghost def_before = def@;
            def.push(raw);
            let new_size = current_size + raw.size as u64;
            if new_size > entry_size {
                return Err(Error::InvalidFormat);
            }
            if new_size == entry_size {
                proof {
                    assert forall|i: int| 0 <= i < def@.len() implies (#[trigger] def@[i]).size <= 2048 by {
                        if i < def_before.len() {
                            assert(def@[i] == def_before[i]);
                        }
                    }
                }
                let full = def;
                def = Vec::new();
                let variant = match Variant::new(full) {
                    Ok(v) => v,
                    Err(e) => return Err(e),
                };
                let ghost vb = variants_view(variants@);
                variants.push(Rc::new(variant));
                proof {
                    assert(variants_view(variants@) =~= vb.push(variant@));
                    assert(def@ =~= Seq::<RawProperty>::empty());
                }
                current_size = 0;
            } else {
                proof {
                    assert forall|i: int| 0 <= i < def@.len() implies (#[trigger] def@[i]).size <= 1032 by {
                        if i < def_before.len() {
                            assert(def@[i] == def_before[i]);
                        }
                    }
                }
                current_size = new_size;
            }
            q = np;
            k = k + 1;
        }
        if def.len() > 0 {
            proof {
                assert forall|i: int| 0 <= i < def@.len() implies (#[trigger] def@[i]).size <= 2048 by {
                    assert(def@[i].size <= 1032);
                }
            }
            let variant = match Variant::new(def) {
                Ok(v) => v,
                Err(e) => return Err(e),
            };
            let ghost vb = variants_view(variants@);
            variants.push(Rc::new(variant));
            proof {
                assert(variants_view(variants@) =~= vb.push(variant@));
            }
        }
        if variants.len() != variant_count as usize {
            return Err(Error::InvalidFormat);
        }
        Ok((Entry { variants, size: entry_size }, q))
    }
}

/// The content at `pos` and, for a patch of `n` bases, the bases after it: each is a
/// 1-byte pack id and a 3-byte content id.
pub open spec fn content_at(e: Seq<u8>, pos: int, n: nat) -> Result<Content, Error>
    decreases n,
{
    if !in_bounds(e, pos, 4) {
        Err(Error::UnexpectedEnd)
    } else {
        let ca = ContentAddress { pack_id: e[pos] as u16, content_id: be_value(e.subrange(pos + 1, pos + 4)) as u32 };
        if n == 0 {
            Ok(Content { content_address: ca, base: None })
        } else {
            match content_at(e, pos + 4, (n - 1) as nat) {
                Err(er) => Err(er),
                Ok(b) => Ok(Content { content_address: ca, base: Some(Box::new(b)) }),
            }
        }
    }
}

/// The value of the property `p` in the entry bytes `e`. Integers are stored most
/// significant byte first and keep the width of their size; a key is read on its size
/// and its base part follows it.
pub open spec fn value_at(p: Property, e: Seq<u8>) -> Result<ValueV, Error> {
    let off = p.offset as int;
    match p.kind {
        PropertyKind::NoValue => Err(Error::Arg),
        PropertyKind::ContentAddress(n) => match content_at(e, off, n as nat) {
            Err(er) => Err(er),
            Ok(c) => Ok(ValueV::Content(c)),
        },
        PropertyKind::UnsignedInt(size) => if size < 1 || size > 8 {
            Err(Error::InvalidFormat)
        } else {
            match spec_be_at(e, off, size as nat) {
                Err(er) => Err(er),
                Ok(v) => Ok(
                    if size == 1 {
                        ValueV::U8(v as u8)
                    } else if size == 2 {
                        ValueV::U16(v as u16)
                    } else if size <= 4 {
                        ValueV::U32(v as u32)
                    } else {
                        ValueV::U64(v)
                    },
                ),
            }
        },
        PropertyKind::SignedInt(size) => if size < 1 || size > 8 {
            Err(Error::InvalidFormat)
        } else {
            match spec_be_at(e, off, size as nat) {
                Err(er) => Err(er),
                Ok(v) => {
                    let x = sign_extend(v as nat, size as nat);
                    Ok(
                        if size == 1 {
                            ValueV::I8(x as i8)
                        } else if size == 2 {
                            ValueV::I16(x as i16)
                        } else if size <= 4 {
                            ValueV::I32(x as i32)
                        } else {
                            ValueV::I64(x as i64)
                        },
                    )
                },
            }
        },
        PropertyKind::Array(size) => if in_bounds(e, off, size as int) {
            Ok(ValueV::Array(e.subrange(off, off + size), None))
        } else {
            Err(Error::UnexpectedEnd)
        },
        PropertyKind::VLArray(size, store, base) => if size > 8 {
            Err(Error::InvalidFormat)
        } else {
            match spec_be_at(e, off, size as nat) {
                Err(er) => Err(er),
                Ok(key) => {
                    let bs: int = match base {
                        None => 0,
                        Some(b) => b as int,
                    };
                    if in_bounds(e, off + size, bs) {
                        Ok(
                            ValueV::Array(
                                e.subrange(off + size, off + size + bs),
                                Some(Extend { store_id: store, key_id: key }),
                            ),
                        )
                    } else {
                        Err(Error::UnexpectedEnd)
                    }
                },
            }
        },
    }
}

/// Reads the content at `pos` with its `n` bases.
fn read_content(e: &[u8], pos: usize, n: u8) -> (r: Result<Content, Error>)
    ensures
        match content_at(e@, pos as int, n as nat) {
            Ok(c) => r == Ok::<Content, Error>(c),
            Err(er) => r == Err::<Content, Error>(er),
        },
    decreases n,
{
    let len = e.len();
    if 4 > len || pos > len - 4 {
        return Err(Error::UnexpectedEnd);
    }
    let content_id = read_be_at(e, pos + 1, 3)?;
    proof {
        lemma_be_value_bound(e@.subrange(pos + 1, pos + 4));
        lemma_pow256_values();
    }
    let ca = ContentAddress::new(e[pos] as u16, content_id as u32);
    if n == 0 {
        Ok(Content::new(ca, None))
    } else {
        let b = read_content(e, pos + 4, n - 1)?;
        Ok(Content::new(ca, Some(b)))
    }
}

/// An entry of an index store: its variant and its bytes.
#[derive(Debug)]
pub struct VariantEntry {
    variant_id: u8,
    variant: Rc<Variant>,
    bytes: Vec<u8>,
}

/// The mathematical content of a [VariantEntry].
pub struct VariantEntryV {
    pub variant_id: u8,
    pub properties: Seq<Property>,
    pub bytes: Seq<u8>,
}

impl View for VariantEntry {
    type V = VariantEntryV;

    closed spec fn view(&self) -> VariantEntryV {
        VariantEntryV { variant_id: self.variant_id, properties: self.variant@, bytes: self.bytes@ }
    }
}

/// `Rc::clone` of std: a new handle on the same variant.
#[verifier::external_body]
fn share_variant(v: &Rc<Variant>) -> (r: Rc<Variant>)
    ensures
        r@ == v@,
{
    Rc::clone(v)
}

/// The variant of the entry bytes `e`: read from the first byte when there are several
/// variants; an error when no variant has that id.
pub open spec fn entry_variant(d: EntryV, e: Seq<u8>) -> Result<u8, Error> {
    let id = if d.variants.len() > 1 {
        spec_u8_at(e, 0)
    } else {
        Ok(0u8)
    };
    match id {
        Err(er) => Err(er),
        Ok(i) => if i >= d.variants.len() {
            Err(Error::InvalidFormat)
        } else {
            Ok(i)
        },
    }
}

impl Entry {
    /// The entry whose bytes are `entry`.
    pub fn create_entry(&self, entry: &[u8]) -> (r: Result<VariantEntry, Error>)
        ensures
            match entry_variant(self@, entry@) {
                Ok(i) => (r matches Ok(x) && x@ == (VariantEntryV {
                    variant_id: i,
                    properties: self@.variants[i as int],
                    bytes: entry@,
                })),
                Err(er) => r matches Err(re) && re == er,
            },
    {
        let variant_id: u8 = if self.variants.len() > 1 {
            if entry.len() < 1 {
                return Err(Error::UnexpectedEnd);
            }
            entry[0]
        } else {
            0
        };
        if variant_id as usize >= self.variants.len() {
            return Err(Error::InvalidFormat);
        }
        let variant = share_variant(&self.variants[variant_id as usize]);
        Ok(VariantEntry { variant_id, variant, bytes: slice_to_vec(entry) })
    }
}

impl VariantEntry {
    /// The variant of the entry.
    pub fn get_variant_id(&self) -> (r: u8)
        ensures
            r == self@.variant_id,
    {
        self.variant_id
    }

    /// The value of property `idx` of the entry's variant.
    pub fn get_value(&self, idx: u8) -> (r: Result<Value, Error>)
        ensures
            idx >= self@.properties.len() ==> r == Err::<Value, Error>(Error::Arg),
            idx < self@.properties.len() ==> match value_at(self@.properties[idx as int], self@.bytes) {
                Ok(v) => (r matches Ok(x) && x@ == v),
                Err(er) => r matches Err(re) && re == er,
            },
    {
        let i = idx as usize;
        if i >= self.variant.properties.len() {
            return Err(Error::Arg);
        }
        let p = self.variant.properties[i];
        let e = self.bytes.as_slice();
        let len = e.len();
        let off = p.offset;
        match p.kind {
            PropertyKind::NoValue => Err(Error::Arg),
            PropertyKind::ContentAddress(n) => {
                let c = read_content(e, off, n)?;
                Ok(Value::Content(c))
            },
            PropertyKind::UnsignedInt(size) => {
                if size < 1 || size > 8 {
                    return Err(Error::InvalidFormat);
                }
                let v = read_be_at(e, off, size)?;
                Ok(
                    if size == 1 {
                        Value::U8(v as u8)
                    } else if size == 2 {
                        Value::U16(v as u16)
                    } else if size <= 4 {
                        Value::U32(v as u32)
                    } else {
                        Value::U64(v)
                    },
                )
            },
            PropertyKind::SignedInt(size) => {
                if size < 1 || size > 8 {
                    return Err(Error::InvalidFormat);
                }
                let v = read_be_at(e, off, size)?;
                proof {
                    lemma_be_value_bound(e@.subrange(off as int, off + size));
                    crate::ints::lemma_pow256_mono(size as nat, 8);
                    lemma_pow256_values();
                }
                let x = extend_sign(v, size);
                Ok(
                    if size == 1 {
                        Value::I8(x as i8)
                    } else if size == 2 {
                        Value::I16(x as i16)
                    } else if size <= 4 {
                        Value::I32(x as i32)
                    } else {
                        Value::I64(x)
                    },
                )
            },
            PropertyKind::Array(size) => {
                if size > len || off > len - size {
                    return Err(Error::UnexpectedEnd);
                }
                Ok(Value::Array(Array::new(slice_to_vec(slice_subrange(e, off, off + size)), None)))
            },
            PropertyKind::VLArray(size, store, base) => {
                if size > 8 {
                    return Err(Error::InvalidFormat);
                }
                let key = read_be_at(e, off, size)?;
                let bs: usize = match base {
                    None => 0,
                    Some(b) => b,
                };
                let start = off + size;
                if bs > len || start > len - bs {
                    return Err(Error::UnexpectedEnd);
                }
                Ok(
                    Value::Array(
                        Array::new(slice_to_vec(slice_subrange(e, start, start + bs)), Some(Extend::new(store, key))),
                    ),
                )
            },
        }
    }
}

} // verus!
