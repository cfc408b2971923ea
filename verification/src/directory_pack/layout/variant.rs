//! The properties of a variant of the entries of an index store, laid out from the
//! property definitions.
use super::raw_property::{RawProperty, RawPropertyKind};
use crate::error::Error;
use vstd::prelude::*;

verus! {

/// The kind of a laid-out property.
#[derive(Debug, Clone, Copy, PartialEq, Eq, Structural)]
pub enum PropertyKind {
    /// Padding or a variant id: nothing to read.
    NoValue,
    /// A content address, with the number of base contents it patches.
    ContentAddress(u8),
    UnsignedInt(usize),
    SignedInt(usize),
    Array(usize),
    /// A key (of the given size) into a key store, with the size of the base part
    /// stored after it, if any.
    VLArray(usize, u8, Option<usize>),
}

/// A laid-out property: where it lies in an entry and what it is.
#[derive(Debug, Clone, Copy, PartialEq, Eq, Structural)]
pub struct Property {
    pub offset: usize,
    pub kind: PropertyKind,
}

impl Property {
    pub fn new(offset: usize, kind: PropertyKind) -> (r: Property)
        ensures
            r.offset == offset,
            r.kind == kind,
    {
        Property { offset, kind }
    }
}

/// Definitions that a variant can be laid out from: at most 255, each of at most 2048
/// bytes.
pub open spec fn small_defs(raws: Seq<RawProperty>) -> bool {
    raws.len() <= 255 && forall|i: int| 0 <= i < raws.len() ==> (#[trigger] raws[i]).size <= 2048
}

/// The property that the definition `idx` makes at `offset`, with the index of the next
/// definition and the next offset. A variant id may only come first; a key with a base
/// part takes the next definition, which must be a char array, as its base.
pub open spec fn build_property(raws: Seq<RawProperty>, idx: int, offset: int) -> Result<(Property, int, int), Error>
    decreases raws.len() - idx,
{
    if idx < 0 || idx >= raws.len() {
        Err(Error::InvalidFormat)
    } else {
        let raw = raws[idx];
        let size = raw.size as int;
        match raw.kind {
            RawPropertyKind::VariantId => if idx == 0 {
                Ok((Property { offset: offset as usize, kind: PropertyKind::NoValue }, idx + 1, offset + 1))
            } else {
                Err(Error::InvalidFormat)
            },
            RawPropertyKind::Padding => Ok(
                (Property { offset: offset as usize, kind: PropertyKind::NoValue }, idx + 1, offset + size),
            ),
            RawPropertyKind::ContentAddress(n) => Ok(
                (Property { offset: offset as usize, kind: PropertyKind::ContentAddress(n) }, idx + 1, offset + (n + 1) * 4),
            ),
            RawPropertyKind::UnsignedInt => Ok(
                (Property { offset: offset as usize, kind: PropertyKind::UnsignedInt(raw.size) }, idx + 1, offset + size),
            ),
            RawPropertyKind::SignedInt => Ok(
                (Property { offset: offset as usize, kind: PropertyKind::SignedInt(raw.size) }, idx + 1, offset + size),
            ),
            RawPropertyKind::CharArray => Ok(
                (Property { offset: offset as usize, kind: PropertyKind::Array(raw.size) }, idx + 1, offset + size),
            ),
            RawPropertyKind::PString(lookup, store) => if lookup {
                match build_property(raws, idx + 1, offset + size) {
                    Err(e) => Err(e),
                    Ok((sub, ni, no)) => match sub.kind {
                        PropertyKind::Array(s) => Ok(
                            (
                                Property { offset: offset as usize, kind: PropertyKind::VLArray(raw.size, store, Some(s)) },
                                ni,
                                no,
                            ),
                        ),
                        _ => Err(Error::InvalidFormat),
                    },
                }
            } else {
                Ok(
                    (
                        Property { offset: offset as usize, kind: PropertyKind::VLArray(raw.size, store, None) },
                        idx + 1,
                        offset + size,
                    ),
                )
            },
        }
    }
}

/// A built property moves on by one or two definitions, and by at most 2048 bytes per
/// definition.
pub proof fn lemma_build_progress(raws: Seq<RawProperty>, idx: int, offset: int)
    requires
        small_defs(raws),
        build_property(raws, idx, offset) is Ok,
    ensures
        ({
            let (p, ni, no) = build_property(raws, idx, offset).unwrap();
            &&& idx < ni <= raws.len()
            &&& ni <= idx + 2
            &&& offset <= no <= offset + 2048 * (ni - idx)
        }),
    decreases raws.len() - idx,
{
    if let RawPropertyKind::PString(lookup, store) = raws[idx].kind {
        if lookup {
            lemma_build_progress(raws, idx + 1, offset + raws[idx].size);
        }
    }
}

/// The properties of the variant laid out from definition `idx` and `offset` on;
/// padding and variant ids take room but are not properties.
pub open spec fn variant_props(raws: Seq<RawProperty>, idx: int, offset: int) -> Result<Seq<Property>, Error>
    decreases raws.len() - idx,
{
    if idx < 0 || idx >= raws.len() {
        Ok(Seq::empty())
    } else {
        match build_property(raws, idx, offset) {
            Err(e) => Err(e),
            Ok((p, ni, no)) => if ni <= idx || ni > raws.len() {
                Err(Error::InvalidFormat)
            } else {
                match variant_props(raws, ni, no) {
                    Err(e) => Err(e),
                    Ok(rest) => Ok(
                        if p.kind == PropertyKind::NoValue {
                            rest
                        } else {
                            seq![p] + rest
                        },
                    ),
                }
            },
        }
    }
}

/// `acc` followed by what `r` holds, or the error of `r`.
pub open spec fn prepend(acc: Seq<Property>, r: Result<Seq<Property>, Error>) -> Result<Seq<Property>, Error> {
    match r {
        Ok(rest) => Ok(acc + rest),
        Err(e) => Err(e),
    }
}

/// The properties of a variant of the entries.
#[derive(Debug)]
pub struct Variant {
    pub properties: Vec<Property>,
}

impl View for Variant {
    type V = Seq<Property>;

    open spec fn view(&self) -> Seq<Property> {
        self.properties@
    }
}

impl Variant {
    /// Lays out the definition `idx` at `offset`.
    fn build_property(current_idx: usize, offset: usize, raw_properties: &[RawProperty]) -> (r: Result<(Property, usize, usize), Error>)
        requires
            small_defs(raw_properties@),
            offset <= 2048 * current_idx,
        ensures
            match build_property(raw_properties@, current_idx as int, offset as int) {
                Ok((p, ni, no)) => r == Ok::<(Property, usize, usize), Error>((p, ni as usize, no as usize)),
                Err(e) => r == Err::<(Property, usize, usize), Error>(e),
            },
        decreases raw_properties@.len() - current_idx,
    {
        let n = raw_properties.len();
        if current_idx >= n {
            return Err(Error::InvalidFormat);
        }
        let raw = raw_properties[current_idx];
        let size = raw.size;
        proof {
            assert(raw_properties@[current_idx as int].size <= 2048);
        }
        match raw.kind {
            RawPropertyKind::VariantId => if current_idx == 0 {
                Ok((Property::new(offset, PropertyKind::NoValue), current_idx + 1, offset + 1))
            } else {
                Err(Error::InvalidFormat)
            },
            RawPropertyKind::Padding => Ok((Property::new(offset, PropertyKind::NoValue), current_idx + 1, offset + size)),
            RawPropertyKind::ContentAddress(nb) => Ok(
                (Property::new(offset, PropertyKind::ContentAddress(nb)), current_idx + 1, offset + (nb as usize + 1) * 4),
            ),
            RawPropertyKind::UnsignedInt => Ok(
                (Property::new(offset, PropertyKind::UnsignedInt(size)), current_idx + 1, offset + size),
            ),
            RawPropertyKind::SignedInt => Ok(
                (Property::new(offset, PropertyKind::SignedInt(size)), current_idx + 1, offset + size),
            ),
            RawPropertyKind::CharArray => Ok((Property::new(offset, PropertyKind::Array(size)), current_idx + 1, offset + size)),
            RawPropertyKind::PString(lookup, store) => if lookup {
                let (sub, ni, no) = Variant::build_property(current_idx + 1, offset + size, raw_properties)?;
                match sub.kind {
                    PropertyKind::Array(s) => Ok((Property::new(offset, PropertyKind::VLArray(size, store, Some(s))), ni, no)),
                    _ => Err(Error::InvalidFormat),
                }
            } else {
                Ok((Property::new(offset, PropertyKind::VLArray(size, store, None)), current_idx + 1, offset + size))
            },
        }
    }

    /// The variant laid out from the definitions `raw_properties`.
    ///
    /// The offset of each property is the sum of the sizes of the definitions before it,
    /// so the definitions must be few and small enough for that sum to stay a `usize`:
    /// at most 255 of at most 2048 bytes each (`small_defs`). Every layout read from a
    /// directory pack meets this: its definitions are at most 255 and at most 1032 bytes.
    pub fn new(raw_properties: Vec<RawProperty>) -> (r: Result<Variant, Error>)
        requires
            small_defs(raw_properties@),
        ensures
            match variant_props(raw_properties@, 0, 0) {
                Ok(ps) => (r matches Ok(v) && v@ == ps),
                Err(e) => r matches Err(re) && re == e,
            },
    {
        let ghost raws = raw_properties@;
        let n = raw_properties.len();
        let mut offset: usize = 0;
        let mut current_idx: usize = 0;
        let mut properties: Vec<Property> = Vec::new();
        assert(variant_props(raws, 0, 0) == prepend(properties@, variant_props(raws, 0, 0))) by {
            assert(properties@ =~= Seq::<Property>::empty());
            match variant_props(raws, 0, 0) {
                Ok(rest) => {
                    assert(Seq::<Property>::empty() + rest =~= rest);
                },
                Err(_) => {},
            }
        }
        while current_idx < n
            invariant
                raws == raw_properties@,
                n == raws.len(),
                small_defs(raws),
                current_idx <= n,
                offset <= 2048 * current_idx,
                variant_props(raws, 0, 0) == prepend(properties@, variant_props(raws, current_idx as int, offset as int)),
            decreases n - current_idx,
        {
            let (property, new_idx, new_offset) = match Variant::build_property(current_idx, offset, raw_properties.as_slice()) {
                Ok(x) => x,
                Err(e) => return Err(e),
            };
            proof {
                lemma_build_progress(raws, current_idx as int, offset as int);
                let rest = variant_props(raws, new_idx as int, new_offset as int);
                match rest {
                    Ok(rs) => {
                        if property.kind != PropertyKind::NoValue {
                            assert(properties@ + (seq![property] + rs) =~= properties@.push(property) + rs);
                        }
                    },
                    Err(_) => {},
                }
            }
            if property.kind != PropertyKind::NoValue {
                properties.push(property);
            }
            offset = new_offset;
            current_idx = new_idx;
        }
        proof {
            assert(properties@ + Seq::<Property>::empty() =~= properties@);
        }
        Ok(Variant { properties })
    }
}

} // verus!
