//! What a laid-out property shows of itself: a header naming its kind and the fields
//! that matter for that kind.
use super::Property;
use crate::directory_pack::raw_layout::{DeportedDefault, DeportedInfo, PropertyKind};
use vstd::prelude::*;

verus! {

/// The value of a field of a property description.
#[derive(Debug, Clone, Copy, PartialEq, Eq)]
pub enum FieldValue {
    Int(u64),
    SignedInt(i64),
    OptionalInt(Option<u64>),
    Bytes([u8; 31]),
    Deported(Option<DeportedInfo>),
}

/// The name of the kind of a property.
pub open spec fn spec_header(k: PropertyKind) -> &'static str {
    match k {
        PropertyKind::Padding => "Padding",
        PropertyKind::ContentAddress { .. } => "Content Address",
        PropertyKind::UnsignedInt { .. } => "Unsigned Int",
        PropertyKind::SignedInt { .. } => "Signed Int",
        PropertyKind::DeportedUnsignedInt { .. } => "Deported Unsigned Int",
        PropertyKind::DeportedSignedInt { .. } => "Deported Signed Int",
        PropertyKind::Array { .. } => "Array",
        PropertyKind::VariantId => "Variant Id",
    }
}

/// The fields of a deported integer: with a key stored in the entry, where and how
/// large; with a fixed key, that key.
pub open spec fn deported_fields(offset: u64, int_size: u64, store: u8, id: DeportedDefault) -> Seq<
    (&'static str, FieldValue),
> {
    match id {
        DeportedDefault::KeySize(size) => seq![
            ("offset", FieldValue::Int(offset)),
            ("int_size", FieldValue::Int(int_size)),
            ("value_store_idx", FieldValue::Int(store as u64)),
            ("key_size", FieldValue::Int(size.spec_len() as u64)),
        ],
        DeportedDefault::Value(key) => seq![
            ("int_size", FieldValue::Int(int_size)),
            ("value_store_idx", FieldValue::Int(store as u64)),
            ("key", FieldValue::Int(key)),
        ],
    }
}

/// The fields that a property shows: where a value stored in the entry lies and how
/// it is stored, or the default value when all entries share one.
pub open spec fn spec_fields(p: Property) -> Seq<(&'static str, FieldValue)> {
    let offset = p.offset as u64;
    match p.kind {
        PropertyKind::Padding => seq![],
        PropertyKind::ContentAddress { pack_id_size, content_id_size, default_pack_id } => match default_pack_id {
            None => seq![
                ("offset", FieldValue::Int(offset)),
                ("pack_id_size", FieldValue::Int(pack_id_size.spec_len() as u64)),
                ("content_id_size", FieldValue::Int(content_id_size.spec_len() as u64)),
            ],
            Some(pack_id) => seq![("default", FieldValue::Int(pack_id as u64))],
        },
        PropertyKind::UnsignedInt { int_size, default } => match default {
            None => seq![("offset", FieldValue::Int(offset)), ("int_size", FieldValue::Int(int_size.spec_len() as u64))],
            Some(v) => seq![("default", FieldValue::Int(v))],
        },
        PropertyKind::SignedInt { int_size, default } => match default {
            None => seq![("offset", FieldValue::Int(offset)), ("int_size", FieldValue::Int(int_size.spec_len() as u64))],
            Some(v) => seq![("default", FieldValue::SignedInt(v))],
        },
        PropertyKind::DeportedUnsignedInt { int_size, value_store_idx, id } => deported_fields(
            offset,
            int_size.spec_len() as u64,
            value_store_idx,
            id,
        ),
        PropertyKind::DeportedSignedInt { int_size, value_store_idx, id } => deported_fields(
            offset,
            int_size.spec_len() as u64,
            value_store_idx,
            id,
        ),
        PropertyKind::Array { array_len_size, fixed_array_len, deported_info, default } => match default {
            None => seq![
                ("offset", FieldValue::Int(offset)),
                (
                    "array_len_size",
                    FieldValue::OptionalInt(
                        match array_len_size {
                            None => None,
                            Some(s) => Some(s.spec_len() as u64),
                        },
                    ),
                ),
                ("base_array_len", FieldValue::Int(fixed_array_len as u64)),
                ("deported_info", FieldValue::Deported(deported_info)),
            ],
            Some((array_len, base_array, value_id)) => seq![
                ("array_len", FieldValue::Int(array_len)),
                ("base_array", FieldValue::Bytes(base_array.data)),
                ("deported_id", FieldValue::OptionalInt(value_id)),
            ],
        },
        PropertyKind::VariantId => seq![("offset", FieldValue::Int(offset))],
    }
}

fn deported_field_list(offset: u64, int_size: u64, store: u8, id: DeportedDefault) -> (r: Vec<(&'static str, FieldValue)>)
    ensures
        r@ == deported_fields(offset, int_size, store, id),
{
    let v = match id {
        DeportedDefault::KeySize(size) => vec![
            ("offset", FieldValue::Int(offset)),
            ("int_size", FieldValue::Int(int_size)),
            ("value_store_idx", FieldValue::Int(store as u64)),
            ("key_size", FieldValue::Int(size.len() as u64)),
        ],
        DeportedDefault::Value(key) => vec![
            ("int_size", FieldValue::Int(int_size)),
            ("value_store_idx", FieldValue::Int(store as u64)),
            ("key", FieldValue::Int(key)),
        ],
    };
    assert(v@ =~= deported_fields(offset, int_size, store, id));
    v
}

impl Property {
    /// The name of the kind of the property.
    pub fn header(&self) -> (r: &'static str)
        ensures
            r == spec_header(self.kind),
    {
        match self.kind {
            PropertyKind::Padding => "Padding",
            PropertyKind::ContentAddress { .. } => "Content Address",
            PropertyKind::UnsignedInt { .. } => "Unsigned Int",
            PropertyKind::SignedInt { .. } => "Signed Int",
            PropertyKind::DeportedUnsignedInt { .. } => "Deported Unsigned Int",
            PropertyKind::DeportedSignedInt { .. } => "Deported Signed Int",
            PropertyKind::Array { .. } => "Array",
            PropertyKind::VariantId => "Variant Id",
        }
    }

    /// The (name, value) fields that the property shows, in order.
    pub fn fields(&self) -> (r: Vec<(&'static str, FieldValue)>)
        ensures
            r@ == spec_fields(*self),
    {
        let offset = self.offset as u64;
        let v = match self.kind {
            PropertyKind::Padding => Vec::new(),
            PropertyKind::ContentAddress { pack_id_size, content_id_size, default_pack_id } => match default_pack_id {
                None => vec![
                    ("offset", FieldValue::Int(offset)),
                    ("pack_id_size", FieldValue::Int(pack_id_size.len() as u64)),
                    ("content_id_size", FieldValue::Int(content_id_size.len() as u64)),
                ],
                Some(pack_id) => vec![("default", FieldValue::Int(pack_id as u64))],
            },
            PropertyKind::UnsignedInt { int_size, default } => match default {
                None => vec![("offset", FieldValue::Int(offset)), ("int_size", FieldValue::Int(int_size.len() as u64))],
                Some(v) => vec![("default", FieldValue::Int(v))],
            },
            PropertyKind::SignedInt { int_size, default } => match default {
                None => vec![("offset", FieldValue::Int(offset)), ("int_size", FieldValue::Int(int_size.len() as u64))],
                Some(v) => vec![("default", FieldValue::SignedInt(v))],
            },
            PropertyKind::DeportedUnsignedInt { int_size, value_store_idx, id } => {
                return deported_field_list(offset, int_size.len() as u64, value_store_idx, id);
            },
            PropertyKind::DeportedSignedInt { int_size, value_store_idx, id } => {
                return deported_field_list(offset, int_size.len() as u64, value_store_idx, id);
            },
            PropertyKind::Array { array_len_size, fixed_array_len, deported_info, default } => match default {
                None => {
                    let len_size = match array_len_size {
                        None => None,
                        Some(s) => Some(s.len() as u64),
                    };
                    vec![
                        ("offset", FieldValue::Int(offset)),
                        ("array_len_size", FieldValue::OptionalInt(len_size)),
                        ("base_array_len", FieldValue::Int(fixed_array_len as u64)),
                        ("deported_info", FieldValue::Deported(deported_info)),
                    ]
                },
                Some((array_len, base_array, value_id)) => vec![
                    ("array_len", FieldValue::Int(array_len)),
                    ("base_array", FieldValue::Bytes(base_array.data)),
                    ("deported_id", FieldValue::OptionalInt(value_id)),
                ],
            },
            PropertyKind::VariantId => vec![("offset", FieldValue::Int(offset))],
        };
        assert(v@ =~= spec_fields(*self));
        v
    }
}

} // verus!
