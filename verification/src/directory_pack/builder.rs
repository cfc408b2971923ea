//! The builders that read the values of an entry's properties.
//!
//! A layout property says where a value lies in an entry and of what kind it is;
//! a builder property is specialized to one kind of value, with the value store it
//! needs already found.
use super::entry_store::{spec_entry, EntryStore, EntryStoreV};
use super::layout::{copy_bytes, entries_view, names_view, props_views, LayoutV, Properties, PropertyV};
use super::lazy_entry::{LazyEntry, LazyEntryV};
use super::property_compare::{bytes_views, values_views, PropertyCompare};
use super::range::CompareTrait;
use crate::assoc::{assoc_to_map, find_key, keys_unique, lemma_assoc_dom, lemma_assoc_value};
use super::raw_layout::{DeportedDefault, DeportedInfo, PropertyKind, PropertyKindV};
use super::raw_value::{array_new_v, extend_view, Array, ArrayV, ContentAddress, Extend, RawValue, RawValueV, Value};
use super::value_store::{share_store, spec_get_data, ValueStorageTrait, ValueStore, ValueStoreV};
use crate::bases::{in_bounds, padded31, read_u8_at, read_uint_at, read_int_at, spec_u8_at, spec_uint_at, spec_int_at, BaseArray, ByteSize};
use crate::error::Error;
use crate::ints::{le_value, sign_extend};
use std::rc::Rc;
use std::sync::Arc;
use vstd::prelude::*;
use vstd::slice::{slice_subrange, slice_to_vec};
use zerocopy::byteorder::{ByteOrder, LittleEndian};

verus! {

/// `LittleEndian::read_uint` of the byteorder crate, as zerocopy re-exports it: the
/// little-endian value of the first `n` bytes of `buf`. It panics unless `n` is between
/// 1 and 8 and `buf` holds `n` bytes.
#[verifier::external_body]
pub(crate) fn le_read_uint(buf: &[u8], n: usize) -> (r: u64)
    requires
        1 <= n <= 8,
        n <= buf@.len(),
    ensures
        r == le_value(buf@.subrange(0, n as int)),
{
    LittleEndian::read_uint(buf, n)
}

/// `LittleEndian::read_int` of the byteorder crate, as zerocopy re-exports it: the
/// first `n` bytes of `buf` read as a little-endian two's complement integer. It panics
/// unless `n` is between 1 and 8 and `buf` holds `n` bytes.
#[verifier::external_body]
fn le_read_int(buf: &[u8], n: usize) -> (r: i64)
    requires
        1 <= n <= 8,
        n <= buf@.len(),
    ensures
        r == sign_extend(le_value(buf@.subrange(0, n as int)), n as nat),
{
    LittleEndian::read_int(buf, n)
}

/// A builder property: reads one kind of value from the bytes of an entry.
pub trait PropertyBuilderTrait {
    type Output;

    /// Whether `r` is what reading the property from the entry bytes `entry` gives.
    spec fn reads(&self, entry: Seq<u8>, r: Result<Self::Output, Error>) -> bool;

    /// Reads the value of the property from the bytes of an entry.
    fn create(&self, entry: &[u8]) -> (r: Result<Self::Output, Error>)
        ensures
            self.reads(entry@, r),
    ;
}

/// Reads the variant id of an entry.
#[derive(Debug, Clone, Copy)]
pub struct VariantIdProperty {
    offset: usize,
}

impl VariantIdProperty {
    /// The position of the variant id in an entry.
    pub closed spec fn spec_offset(self) -> nat {
        self.offset as nat
    }

    pub fn new(offset: usize) -> (r: VariantIdProperty)
        ensures
            r.spec_offset() == offset,
    {
        VariantIdProperty { offset }
    }
}

impl PropertyBuilderTrait for VariantIdProperty {
    type Output = u8;

    open spec fn reads(&self, entry: Seq<u8>, r: Result<u8, Error>) -> bool {
        r == spec_u8_at(entry, self.spec_offset() as int)
    }

    fn create(&self, entry: &[u8]) -> (r: Result<u8, Error>) {
        read_u8_at(entry, self.offset)
    }
}

/// The integer stored under `key` in a value store, on `size` bytes.
pub open spec fn deported_uint(store: ValueStoreV, key: u64, size: ByteSize) -> Result<u64, Error> {
    match spec_get_data(store, key, Some(size.spec_len() as u64)) {
        Err(e) => Err(e),
        Ok(d) => Ok(le_value(d) as u64),
    }
}

/// The signed integer stored under `key` in a value store, on `size` bytes.
pub open spec fn deported_sint(store: ValueStoreV, key: u64, size: ByteSize) -> Result<i64, Error> {
    match spec_get_data(store, key, Some(size.spec_len() as u64)) {
        Err(e) => Err(e),
        Ok(d) => Ok(sign_extend(le_value(d), size.spec_len()) as i64),
    }
}

/// Reads the integer of `size` bytes stored under `key` in `store`.
fn read_deported_uint(store: &ValueStore, key: u64, size: ByteSize) -> (r: Result<u64, Error>)
    ensures
        r == deported_uint(store@, key, size),
{
    let n = size.len();
    let data = match store.get_data(key, Some(n as u64)) {
        Ok(d) => d,
        Err(e) => return Err(e),
    };
    proof {
        assert(data@.subrange(0, n as int) =~= data@);
    }
    Ok(le_read_uint(data, n))
}

/// Reads the signed integer of `size` bytes stored under `key` in `store`.
fn read_deported_sint(store: &ValueStore, key: u64, size: ByteSize) -> (r: Result<i64, Error>)
    ensures
        r == deported_sint(store@, key, size),
{
    let n = size.len();
    let data = match store.get_data(key, Some(n as u64)) {
        Ok(d) => d,
        Err(e) => return Err(e),
    };
    proof {
        assert(data@.subrange(0, n as int) =~= data@);
    }
    Ok(le_read_int(data, n))
}

/// The views of a deported part: the key size and the store.
pub open spec fn deported_view(d: Option<(ByteSize, Arc<ValueStore>)>) -> Option<(ByteSize, ValueStoreV)> {
    match d {
        None => None,
        Some((k, s)) => Some((k, s@)),
    }
}

/// Reads an unsigned integer.
#[derive(Debug)]
pub struct IntProperty {
    offset: usize,
    size: ByteSize,
    default: Option<u64>,
    deported: Option<(ByteSize, Arc<ValueStore>)>,
}

/// The mathematical content of an [IntProperty].
pub struct IntPropertyV {
    /// The position of the value (or of its key) in an entry.
    pub offset: nat,
    /// The size of the value.
    pub size: ByteSize,
    /// The value of all entries, when it is fixed.
    pub default: Option<u64>,
    /// The size of the key stored in the entry and the store holding the values.
    pub deported: Option<(ByteSize, ValueStoreV)>,
}

impl View for IntProperty {
    type V = IntPropertyV;

    closed spec fn view(&self) -> IntPropertyV {
        IntPropertyV {
            offset: self.offset as nat,
            size: self.size,
            default: self.default,
            deported: deported_view(self.deported),
        }
    }
}

/// The unsigned integer that the property reads from the entry bytes `e`.
pub open spec fn int_create(p: IntPropertyV, e: Seq<u8>) -> Result<u64, Error> {
    match p.default {
        Some(v) => Ok(v),
        None => match p.deported {
            None => spec_uint_at(e, p.offset as int, p.size.spec_len()),
            Some((key_size, store)) => match spec_uint_at(e, p.offset as int, key_size.spec_len()) {
                Err(er) => Err(er),
                Ok(key) => deported_uint(store, key, p.size),
            },
        },
    }
}

/// The property that a deported unsigned integer makes: with a fixed key, its value
/// is read once from the store.
pub open spec fn int_from_deported(offset: nat, size: ByteSize, store: ValueStoreV, dd: DeportedDefault) -> Result<IntPropertyV, Error> {
    match dd {
        DeportedDefault::Value(key) => match deported_uint(store, key, size) {
            Err(e) => Err(e),
            Ok(v) => Ok(IntPropertyV { offset, size, default: Some(v), deported: None }),
        },
        DeportedDefault::KeySize(key_size) => Ok(
            IntPropertyV { offset, size, default: None, deported: Some((key_size, store)) },
        ),
    }
}

/// The unsigned integer property that a layout property describes, if it is one.
pub open spec fn int_from_property(p: PropertyV, stores: Seq<ValueStoreV>) -> Result<IntPropertyV, Error> {
    match p.kind {
        PropertyKindV::UnsignedInt { int_size, default } => Ok(
            IntPropertyV { offset: p.offset, size: int_size, default, deported: None },
        ),
        PropertyKindV::DeportedUnsignedInt { int_size, value_store_idx, id } => if value_store_idx
            < stores.len() {
            int_from_deported(p.offset, int_size, stores[value_store_idx as int], id)
        } else {
            Err(Error::Arg)
        },
        _ => Err(Error::Arg),
    }
}

impl IntProperty {
    pub fn new(offset: usize, size: ByteSize, default: Option<u64>, deported: Option<(ByteSize, Arc<ValueStore>)>) -> (r: IntProperty)
        ensures
            r@ == (IntPropertyV { offset: offset as nat, size, default, deported: deported_view(deported) }),
    {
        IntProperty { offset, size, default, deported }
    }

    /// The size of the value.
    pub fn size(&self) -> (r: ByteSize)
        ensures
            r == self@.size,
    {
        self.size
    }

    fn new_from_deported(offset: usize, size: ByteSize, store: Arc<ValueStore>, deported_default: DeportedDefault) -> (r: Result<IntProperty, Error>)
        ensures
            match int_from_deported(offset as nat, size, store@, deported_default) {
                Ok(v) => (r matches Ok(p) && p@ == v),
                Err(e) => r matches Err(re) && re == e,
            },
    {
        match deported_default {
            DeportedDefault::Value(key) => {
                let v = match read_deported_uint(&store, key, size) {
                    Ok(v) => v,
                    Err(e) => return Err(e),
                };
                Ok(IntProperty::new(offset, size, Some(v), None))
            },
            DeportedDefault::KeySize(key_size) => Ok(IntProperty::new(offset, size, None, Some((key_size, store)))),
        }
    }

    /// The property reading the unsigned integer that `p` describes; an error if `p`
    /// describes another kind of value.
    pub fn from_property<S: ValueStorageTrait>(p: &super::layout::Property, value_storage: &S) -> (r: Result<IntProperty, Error>)
        ensures
            match int_from_property(p@, value_storage.stores()) {
                Ok(v) => (r matches Ok(ip) && ip@ == v),
                Err(e) => r matches Err(re) && re == e,
            },
    {
        match p.kind {
            PropertyKind::UnsignedInt { int_size, default } => Ok(IntProperty::new(p.offset, int_size, default, None)),
            PropertyKind::DeportedUnsignedInt { int_size, value_store_idx, id } => {
                let store = match value_storage.get_value_store(value_store_idx) {
                    Ok(s) => s,
                    Err(e) => return Err(e),
                };
                IntProperty::new_from_deported(p.offset, int_size, store, id)
            },
            _ => Err(Error::Arg),
        }
    }
}

impl PropertyBuilderTrait for IntProperty {
    type Output = u64;

    open spec fn reads(&self, entry: Seq<u8>, r: Result<u64, Error>) -> bool {
        r == int_create(self@, entry)
    }

    fn create(&self, entry: &[u8]) -> (r: Result<u64, Error>) {
        match self.default {
            Some(v) => Ok(v),
            None => match &self.deported {
                None => read_uint_at(entry, self.offset, self.size.len()),
                Some((key_size, store)) => {
                    let key = match read_uint_at(entry, self.offset, key_size.len()) {
                        Ok(k) => k,
                        Err(e) => return Err(e),
                    };
                    read_deported_uint(store, key, self.size)
                },
            },
        }
    }
}

/// Reads a signed integer.
#[derive(Debug)]
pub struct SignedProperty {
    offset: usize,
    size: ByteSize,
    default: Option<i64>,
    deported: Option<(ByteSize, Arc<ValueStore>)>,
}

/// The mathematical content of a [SignedProperty].
pub struct SignedPropertyV {
    /// The position of the value (or of its key) in an entry.
    pub offset: nat,
    /// The size of the value.
    pub size: ByteSize,
    /// The value of all entries, when it is fixed.
    pub default: Option<i64>,
    /// The size of the key stored in the entry and the store holding the values.
    pub deported: Option<(ByteSize, ValueStoreV)>,
}

impl View for SignedProperty {
    type V = SignedPropertyV;

    closed spec fn view(&self) -> SignedPropertyV {
        SignedPropertyV {
            offset: self.offset as nat,
            size: self.size,
            default: self.default,
            deported: deported_view(self.deported),
        }
    }
}

/// The size of the key that a deported signed integer reads in the entry: the key
/// size for keys of one or two bytes, the size of the value for longer keys.
pub open spec fn signed_key_len(key_size: ByteSize, size: ByteSize) -> nat {
    match key_size {
        ByteSize::U1 => 1,
        ByteSize::U2 => 2,
        _ => size.spec_len(),
    }
}

/// The signed integer that the property reads from the entry bytes `e`.
pub open spec fn signed_create(p: SignedPropertyV, e: Seq<u8>) -> Result<i64, Error> {
    match p.default {
        Some(v) => Ok(v),
        None => match p.deported {
            None => spec_int_at(e, p.offset as int, p.size.spec_len()),
            Some((key_size, store)) => match spec_uint_at(e, p.offset as int, signed_key_len(key_size, p.size)) {
                Err(er) => Err(er),
                Ok(key) => deported_sint(store, key, p.size),
            },
        },
    }
}

/// The property that a deported signed integer makes: with a fixed key, its value
/// is read once from the store.
pub open spec fn signed_from_deported(offset: nat, size: ByteSize, store: ValueStoreV, dd: DeportedDefault) -> Result<SignedPropertyV, Error> {
    match dd {
        DeportedDefault::Value(key) => match deported_sint(store, key, size) {
            Err(e) => Err(e),
            Ok(v) => Ok(SignedPropertyV { offset, size, default: Some(v), deported: None }),
        },
        DeportedDefault::KeySize(key_size) => Ok(
            SignedPropertyV { offset, size, default: None, deported: Some((key_size, store)) },
        ),
    }
}

/// The signed integer property that a layout property describes, if it is one.
pub open spec fn signed_from_property(p: PropertyV, stores: Seq<ValueStoreV>) -> Result<SignedPropertyV, Error> {
    match p.kind {
        PropertyKindV::SignedInt { int_size, default } => Ok(
            SignedPropertyV { offset: p.offset, size: int_size, default, deported: None },
        ),
        PropertyKindV::DeportedSignedInt { int_size, value_store_idx, id } => if value_store_idx
            < stores.len() {
            signed_from_deported(p.offset, int_size, stores[value_store_idx as int], id)
        } else {
            Err(Error::Arg)
        },
        _ => Err(Error::Arg),
    }
}

impl SignedProperty {
    pub fn new(offset: usize, size: ByteSize, default: Option<i64>, deported: Option<(ByteSize, Arc<ValueStore>)>) -> (r: SignedProperty)
        ensures
            r@ == (SignedPropertyV { offset: offset as nat, size, default, deported: deported_view(deported) }),
    {
        SignedProperty { offset, size, default, deported }
    }

    /// The size of the value.
    pub fn size(&self) -> (r: ByteSize)
        ensures
            r == self@.size,
    {
        self.size
    }

    fn new_from_deported(offset: usize, size: ByteSize, store: Arc<ValueStore>, deported_default: DeportedDefault) -> (r: Result<SignedProperty, Error>)
        ensures
            match signed_from_deported(offset as nat, size, store@, deported_default) {
                Ok(v) => (r matches Ok(p) && p@ == v),
                Err(e) => r matches Err(re) && re == e,
            },
    {
        match deported_default {
            DeportedDefault::Value(key) => {
                let v = match read_deported_sint(&store, key, size) {
                    Ok(v) => v,
                    Err(e) => return Err(e),
                };
                Ok(SignedProperty::new(offset, size, Some(v), None))
            },
            DeportedDefault::KeySize(key_size) => Ok(SignedProperty::new(offset, size, None, Some((key_size, store)))),
        }
    }

    /// The property reading the signed integer that `p` describes; an error if `p`
    /// describes another kind of value.
    pub fn from_property<S: ValueStorageTrait>(p: &super::layout::Property, value_storage: &S) -> (r: Result<SignedProperty, Error>)
        ensures
            match signed_from_property(p@, value_storage.stores()) {
                Ok(v) => (r matches Ok(sp) && sp@ == v),
                Err(e) => r matches Err(re) && re == e,
            },
    {
        match p.kind {
            PropertyKind::SignedInt { int_size, default } => Ok(SignedProperty::new(p.offset, int_size, default, None)),
            PropertyKind::DeportedSignedInt { int_size, value_store_idx, id } => {
                let store = match value_storage.get_value_store(value_store_idx) {
                    Ok(s) => s,
                    Err(e) => return Err(e),
                };
                SignedProperty::new_from_deported(p.offset, int_size, store, id)
            },
            _ => Err(Error::Arg),
        }
    }
}

impl PropertyBuilderTrait for SignedProperty {
    type Output = i64;

    open spec fn reads(&self, entry: Seq<u8>, r: Result<i64, Error>) -> bool {
        r == signed_create(self@, entry)
    }

    fn create(&self, entry: &[u8]) -> (r: Result<i64, Error>) {
        match self.default {
            Some(v) => Ok(v),
            None => match &self.deported {
                None => read_int_at(entry, self.offset, self.size.len()),
                Some((key_size, store)) => {
                    let key_len = match key_size {
                        ByteSize::U1 => 1,
                        ByteSize::U2 => 2,
                        _ => self.size.len(),
                    };
                    let key = match read_uint_at(entry, self.offset, key_len) {
                        Ok(k) => k,
                        Err(e) => return Err(e),
                    };
                    read_deported_sint(store, key, self.size)
                },
            },
        }
    }
}

/// Reads an array.
#[derive(Debug)]
pub struct ArrayProperty {
    offset: usize,
    array_size_size: Option<ByteSize>,
    fixed_array_size: u8,
    deported_array_info: Option<(ByteSize, Arc<ValueStore>)>,
    default: Option<(u64, BaseArray, Option<u64>)>,
}

/// The mathematical content of an [ArrayProperty].
pub struct ArrayPropertyV {
    /// The position of the array in an entry.
    pub offset: nat,
    /// The size of the array size stored in the entry, if it is stored.
    pub array_size_size: Option<ByteSize>,
    /// The number of bytes of the base part.
    pub fixed_array_size: u8,
    /// The size of the key of the deported part and the store holding it.
    pub deported: Option<(ByteSize, ValueStoreV)>,
    /// The size, base part and deported key of all entries, when they are fixed.
    pub default: Option<(u64, Seq<u8>, Option<u64>)>,
}

impl View for ArrayProperty {
    type V = ArrayPropertyV;

    closed spec fn view(&self) -> ArrayPropertyV {
        ArrayPropertyV {
            offset: self.offset as nat,
            array_size_size: self.array_size_size,
            fixed_array_size: self.fixed_array_size,
            deported: deported_view(self.deported_array_info),
            default: match self.default {
                None => None,
                Some((size, base, key)) => Some((size, base@, key)),
            },
        }
    }
}

/// The array that the property reads from the entry bytes `e`.
///
/// An entry stores, from the property's offset on, the array size (if its size is
/// given), the base part and the key of the deported part (if there is one). A base
/// part holds at most 31 bytes.
pub open spec fn array_create(p: ArrayPropertyV, e: Seq<u8>) -> Result<ArrayV, Error> {
    let fixed = p.fixed_array_size;
    if fixed > 31 {
        Err(Error::InvalidFormat)
    } else {
        match p.default {
            Some((size, base, key)) => match p.deported {
                None => Ok(array_new_v(Some(size), base, fixed, None)),
                Some((_, store)) => match key {
                    None => Err(Error::InvalidFormat),
                    Some(k) => Ok(array_new_v(Some(size), base, fixed, Some((store, k)))),
                },
            },
            None => {
                let (size, q): (Result<Option<u64>, Error>, int) = match p.array_size_size {
                    None => (Ok(None), p.offset as int),
                    Some(s) => (
                        match spec_uint_at(e, p.offset as int, s.spec_len()) {
                            Err(er) => Err(er),
                            Ok(v) => Ok(Some(v)),
                        },
                        (p.offset + s.spec_len()) as int,
                    ),
                };
                match size {
                    Err(er) => Err(er),
                    Ok(size) => if !in_bounds(e, q, fixed as int) {
                        Err(Error::UnexpectedEnd)
                    } else {
                        let base = padded31(e.subrange(q, q + fixed));
                        match p.deported {
                            None => Ok(array_new_v(size, base, fixed, None)),
                            Some((key_size, store)) => match spec_uint_at(e, q + fixed, key_size.spec_len()) {
                                Err(er) => Err(er),
                                Ok(k) => Ok(array_new_v(size, base, fixed, Some((store, k)))),
                            },
                        }
                    },
                }
            },
        }
    }
}

/// The array property that a layout property describes, if it is one.
pub open spec fn array_from_property(p: PropertyV, stores: Seq<ValueStoreV>) -> Result<ArrayPropertyV, Error> {
    match p.kind {
        PropertyKindV::Array { array_len_size, fixed_array_len, deported_info, default } => match deported_info {
            None => Ok(
                ArrayPropertyV {
                    offset: p.offset,
                    array_size_size: array_len_size,
                    fixed_array_size: fixed_array_len,
                    deported: None,
                    default,
                },
            ),
            Some(info) => if info.value_store_idx < stores.len() {
                Ok(
                    ArrayPropertyV {
                        offset: p.offset,
                        array_size_size: array_len_size,
                        fixed_array_size: fixed_array_len,
                        deported: Some((info.id_size, stores[info.value_store_idx as int])),
                        default,
                    },
                )
            } else {
                Err(Error::Arg)
            },
        },
        _ => Err(Error::Arg),
    }
}

impl ArrayProperty {
    pub fn new(
        offset: usize,
        array_size_size: Option<ByteSize>,
        fixed_array_size: u8,
        deported_array_info: Option<(ByteSize, Arc<ValueStore>)>,
        default: Option<(u64, BaseArray, Option<u64>)>,
    ) -> (r: ArrayProperty)
        ensures
            r@ == (ArrayPropertyV {
                offset: offset as nat,
                array_size_size,
                fixed_array_size,
                deported: deported_view(deported_array_info),
                default: match default {
                    None => None,
                    Some((size, base, key)) => Some((size, base@, key)),
                },
            }),
    {
        ArrayProperty { offset, array_size_size, fixed_array_size, deported_array_info, default }
    }

    /// The property reading the array that `p` describes; an error if `p` describes
    /// another kind of value.
    pub fn from_property<S: ValueStorageTrait>(p: &super::layout::Property, value_storage: &S) -> (r: Result<ArrayProperty, Error>)
        ensures
            match array_from_property(p@, value_storage.stores()) {
                Ok(v) => (r matches Ok(ap) && ap@ == v),
                Err(e) => r matches Err(re) && re == e,
            },
    {
        match p.kind {
            PropertyKind::Array { array_len_size, fixed_array_len, deported_info, default } => {
                let deported = match deported_info {
                    None => None,
                    Some(info) => {
                        let store = match value_storage.get_value_store(info.value_store_idx) {
                            Ok(s) => s,
                            Err(e) => return Err(e),
                        };
                        Some((info.id_size, store))
                    },
                };
                Ok(ArrayProperty::new(p.offset, array_len_size, fixed_array_len, deported, default))
            },
            _ => Err(Error::Arg),
        }
    }
}

impl PropertyBuilderTrait for ArrayProperty {
    type Output = Array;

    open spec fn reads(&self, entry: Seq<u8>, r: Result<Array, Error>) -> bool {
        match array_create(self@, entry) {
            Ok(a) => (r matches Ok(x) && x@ == a),
            Err(er) => r matches Err(re) && re == er,
        }
    }

    fn create(&self, entry: &[u8]) -> (r: Result<Array, Error>) {
        let fixed = self.fixed_array_size;
        if fixed > 31 {
            return Err(Error::InvalidFormat);
        }
        match &self.default {
            Some((size, base, key)) => {
                let extend = match &self.deported_array_info {
                    None => None,
                    Some((_, store)) => match key {
                        None => return Err(Error::InvalidFormat),
                        Some(k) => Some(Extend::new(share_store(store), *k)),
                    },
                };
                Ok(Array::new(Some(*size), *base, fixed, extend))
            },
            None => {
                let blen = entry.len();
                let (size, q) = match self.array_size_size {
                    None => (None, self.offset),
                    Some(s) => {
                        let v = match read_uint_at(entry, self.offset, s.len()) {
                            Ok(v) => v,
                            Err(e) => return Err(e),
                        };
                        (Some(v), self.offset + s.len())
                    },
                };
                let n = fixed as usize;
                if !(n <= blen && q <= blen - n) {
                    return Err(Error::UnexpectedEnd);
                }
                let base = BaseArray::new(slice_subrange(entry, q, q + n));
                let extend = match &self.deported_array_info {
                    None => None,
                    Some((key_size, store)) => {
                        let k = match read_uint_at(entry, q + n, key_size.len()) {
                            Ok(k) => k,
                            Err(e) => return Err(e),
                        };
                        Some(Extend::new(share_store(store), k))
                    },
                };
                Ok(Array::new(size, base, fixed, extend))
            },
        }
    }
}

/// Reads a content address.
#[derive(Debug, Clone, Copy, PartialEq, Eq)]
pub struct ContentProperty {
    offset: usize,
    pack_id_default: Option<u16>,
    pack_id_size: ByteSize,
    content_id_size: ByteSize,
}

/// The mathematical content of a [ContentProperty].
pub struct ContentPropertyV {
    /// The position of the address in an entry.
    pub offset: nat,
    /// The pack of all entries, when it is fixed.
    pub pack_id_default: Option<u16>,
    /// The size of the pack id stored in the entry.
    pub pack_id_size: ByteSize,
    /// The size of the content id stored in the entry.
    pub content_id_size: ByteSize,
}

impl View for ContentProperty {
    type V = ContentPropertyV;

    closed spec fn view(&self) -> ContentPropertyV {
        ContentPropertyV {
            offset: self.offset as nat,
            pack_id_default: self.pack_id_default,
            pack_id_size: self.pack_id_size,
            content_id_size: self.content_id_size,
        }
    }
}

/// The content address that the property reads from the entry bytes `e`: the pack id
/// (unless it is fixed) followed by the content id.
pub open spec fn content_create(p: ContentPropertyV, e: Seq<u8>) -> Result<ContentAddress, Error> {
    let cl = p.content_id_size.spec_len();
    match p.pack_id_default {
        Some(d) => match spec_uint_at(e, p.offset as int, cl) {
            Err(er) => Err(er),
            Ok(c) => Ok(ContentAddress { pack_id: d, content_id: c as u32 }),
        },
        None => {
            let pl = p.pack_id_size.spec_len();
            match spec_uint_at(e, p.offset as int, pl) {
                Err(er) => Err(er),
                Ok(pk) => match spec_uint_at(e, (p.offset + pl) as int, cl) {
                    Err(er) => Err(er),
                    Ok(c) => Ok(ContentAddress { pack_id: pk as u16, content_id: c as u32 }),
                },
            }
        },
    }
}

/// The content property that a layout property describes, if it is one.
pub open spec fn content_from_property(p: PropertyV) -> Result<ContentPropertyV, Error> {
    match p.kind {
        PropertyKindV::ContentAddress { pack_id_size, content_id_size, default_pack_id } => Ok(
            ContentPropertyV { offset: p.offset, pack_id_default: default_pack_id, pack_id_size, content_id_size },
        ),
        _ => Err(Error::Arg),
    }
}

impl ContentProperty {
    pub fn new(offset: usize, pack_id_default: Option<u16>, pack_id_size: ByteSize, content_id_size: ByteSize) -> (r: ContentProperty)
        ensures
            r@ == (ContentPropertyV { offset: offset as nat, pack_id_default, pack_id_size, content_id_size }),
    {
        ContentProperty { offset, pack_id_default, pack_id_size, content_id_size }
    }

    /// The property reading the content address that `p` describes; an error if `p`
    /// describes another kind of value.
    pub fn from_property(p: &super::layout::Property) -> (r: Result<ContentProperty, Error>)
        ensures
            match content_from_property(p@) {
                Ok(v) => (r matches Ok(cp) && cp@ == v),
                Err(e) => r matches Err(re) && re == e,
            },
    {
        match p.kind {
            PropertyKind::ContentAddress { pack_id_size, content_id_size, default_pack_id } => Ok(
                ContentProperty::new(p.offset, default_pack_id, pack_id_size, content_id_size),
            ),
            _ => Err(Error::Arg),
        }
    }
}

impl PropertyBuilderTrait for ContentProperty {
    type Output = ContentAddress;

    open spec fn reads(&self, entry: Seq<u8>, r: Result<ContentAddress, Error>) -> bool {
        r == content_create(self@, entry)
    }

    fn create(&self, entry: &[u8]) -> (r: Result<ContentAddress, Error>) {
        let cl = self.content_id_size.len();
        match self.pack_id_default {
            Some(d) => {
                let c = match read_uint_at(entry, self.offset, cl) {
                    Ok(c) => c,
                    Err(e) => return Err(e),
                };
                Ok(ContentAddress::new(d, c as u32))
            },
            None => {
                let blen = entry.len();
                let pl = self.pack_id_size.len();
                let pk = match read_uint_at(entry, self.offset, pl) {
                    Ok(v) => v,
                    Err(e) => return Err(e),
                };
                let c = match read_uint_at(entry, self.offset + pl, cl) {
                    Ok(c) => c,
                    Err(e) => return Err(e),
                };
                Ok(ContentAddress::new(pk as u16, c as u32))
            },
        }
    }
}

/// The builder property of any kind of value.
#[derive(Debug)]
pub enum AnyProperty {
    ContentAddress(ContentProperty),
    UnsignedInt(IntProperty),
    SignedInt(SignedProperty),
    Array(ArrayProperty),
}

/// The mathematical content of an [AnyProperty].
pub enum AnyPropertyV {
    ContentAddress(ContentPropertyV),
    UnsignedInt(IntPropertyV),
    SignedInt(SignedPropertyV),
    Array(ArrayPropertyV),
}

impl View for AnyProperty {
    type V = AnyPropertyV;

    open spec fn view(&self) -> AnyPropertyV {
        match self {
            AnyProperty::ContentAddress(p) => AnyPropertyV::ContentAddress(p@),
            AnyProperty::UnsignedInt(p) => AnyPropertyV::UnsignedInt(p@),
            AnyProperty::SignedInt(p) => AnyPropertyV::SignedInt(p@),
            AnyProperty::Array(p) => AnyPropertyV::Array(p@),
        }
    }
}

/// The builder property that a layout property describes. Padding and variant ids
/// have no value to read.
pub open spec fn any_from_property(p: PropertyV, stores: Seq<ValueStoreV>) -> Result<AnyPropertyV, Error> {
    match p.kind {
        PropertyKindV::ContentAddress { .. } => match content_from_property(p) {
            Err(e) => Err(e),
            Ok(c) => Ok(AnyPropertyV::ContentAddress(c)),
        },
        PropertyKindV::UnsignedInt { .. } | PropertyKindV::DeportedUnsignedInt { .. } => match int_from_property(p, stores) {
            Err(e) => Err(e),
            Ok(c) => Ok(AnyPropertyV::UnsignedInt(c)),
        },
        PropertyKindV::SignedInt { .. } | PropertyKindV::DeportedSignedInt { .. } => match signed_from_property(p, stores) {
            Err(e) => Err(e),
            Ok(c) => Ok(AnyPropertyV::SignedInt(c)),
        },
        PropertyKindV::Array { .. } => match array_from_property(p, stores) {
            Err(e) => Err(e),
            Ok(c) => Ok(AnyPropertyV::Array(c)),
        },
        _ => Err(Error::Arg),
    }
}

/// The value that the property reads from the entry bytes `e`; integers keep the
/// width of their size (3 bytes in 32 bits, 5 to 7 bytes in 64 bits).
pub open spec fn any_create(p: AnyPropertyV, e: Seq<u8>) -> Result<RawValueV, Error> {
    match p {
        AnyPropertyV::ContentAddress(c) => match content_create(c, e) {
            Err(er) => Err(er),
            Ok(v) => Ok(RawValueV::Content(v)),
        },
        AnyPropertyV::UnsignedInt(i) => match int_create(i, e) {
            Err(er) => Err(er),
            Ok(v) => Ok(
                match i.size {
                    ByteSize::U1 => RawValueV::U8(v as u8),
                    ByteSize::U2 => RawValueV::U16(v as u16),
                    ByteSize::U3 | ByteSize::U4 => RawValueV::U32(v as u32),
                    _ => RawValueV::U64(v),
                },
            ),
        },
        AnyPropertyV::SignedInt(i) => match signed_create(i, e) {
            Err(er) => Err(er),
            Ok(v) => Ok(
                match i.size {
                    ByteSize::U1 => RawValueV::I8(v as i8),
                    ByteSize::U2 => RawValueV::I16(v as i16),
                    ByteSize::U3 | ByteSize::U4 => RawValueV::I32(v as i32),
                    _ => RawValueV::I64(v),
                },
            ),
        },
        AnyPropertyV::Array(a) => match array_create(a, e) {
            Err(er) => Err(er),
            Ok(v) => Ok(RawValueV::Array(v)),
        },
    }
}

impl AnyProperty {
    /// The builder property that the layout property `p` describes, with the value
    /// store it needs found in `value_storage`.
    pub fn from_property<S: ValueStorageTrait>(p: &super::layout::Property, value_storage: &S) -> (r: Result<AnyProperty, Error>)
        ensures
            match any_from_property(p@, value_storage.stores()) {
                Ok(v) => (r matches Ok(ap) && ap@ == v),
                Err(e) => r matches Err(re) && re == e,
            },
    {
        match p.kind {
            PropertyKind::ContentAddress { .. } => match ContentProperty::from_property(p) {
                Ok(c) => Ok(AnyProperty::ContentAddress(c)),
                Err(e) => Err(e),
            },
            PropertyKind::UnsignedInt { .. } | PropertyKind::DeportedUnsignedInt { .. } => match IntProperty::from_property(p, value_storage) {
                Ok(c) => Ok(AnyProperty::UnsignedInt(c)),
                Err(e) => Err(e),
            },
            PropertyKind::SignedInt { .. } | PropertyKind::DeportedSignedInt { .. } => match SignedProperty::from_property(p, value_storage) {
                Ok(c) => Ok(AnyProperty::SignedInt(c)),
                Err(e) => Err(e),
            },
            PropertyKind::Array { .. } => match ArrayProperty::from_property(p, value_storage) {
                Ok(c) => Ok(AnyProperty::Array(c)),
                Err(e) => Err(e),
            },
            _ => Err(Error::Arg),
        }
    }
}

impl PropertyBuilderTrait for AnyProperty {
    type Output = RawValue;

    open spec fn reads(&self, entry: Seq<u8>, r: Result<RawValue, Error>) -> bool {
        match any_create(self@, entry) {
            Ok(v) => (r matches Ok(x) && x@ == v),
            Err(er) => r matches Err(re) && re == er,
        }
    }

    fn create(&self, entry: &[u8]) -> (r: Result<RawValue, Error>) {
        match self {
            AnyProperty::ContentAddress(p) => match p.create(entry) {
                Ok(v) => Ok(RawValue::Content(v)),
                Err(e) => Err(e),
            },
            AnyProperty::UnsignedInt(p) => match p.create(entry) {
                Ok(v) => Ok(
                    match p.size() {
                        ByteSize::U1 => RawValue::U8(v as u8),
                        ByteSize::U2 => RawValue::U16(v as u16),
                        ByteSize::U3 | ByteSize::U4 => RawValue::U32(v as u32),
                        _ => RawValue::U64(v),
                    },
                ),
                Err(e) => Err(e),
            },
            AnyProperty::SignedInt(p) => match p.create(entry) {
                Ok(v) => Ok(
                    match p.size() {
                        ByteSize::U1 => RawValue::I8(v as i8),
                        ByteSize::U2 => RawValue::I16(v as i16),
                        ByteSize::U3 | ByteSize::U4 => RawValue::I32(v as i32),
                        _ => RawValue::I64(v),
                    },
                ),
                Err(e) => Err(e),
            },
            AnyProperty::Array(p) => match p.create(entry) {
                Ok(v) => Ok(RawValue::Array(v)),
                Err(e) => Err(e),
            },
        }
    }
}

/// The (name, builder property) pairs of a table seen as their views.
pub open spec fn builders_view(e: Seq<(Vec<u8>, AnyProperty)>) -> Seq<(Seq<u8>, AnyPropertyV)> {
    e.map_values(|p: (Vec<u8>, AnyProperty)| (p.0@, p.1@))
}

/// Whether every property of `m` makes a builder property.
pub open spec fn variant_ok(m: Map<Seq<u8>, PropertyV>, stores: Seq<ValueStoreV>) -> bool {
    forall|k: Seq<u8>| m.contains_key(k) ==> (#[trigger] any_from_property(m[k], stores)) is Ok
}

/// The builder properties that the properties of `m` make.
pub open spec fn variant_builders(m: Map<Seq<u8>, PropertyV>, stores: Seq<ValueStoreV>) -> Map<Seq<u8>, AnyPropertyV> {
    m.map_values(|p: PropertyV| any_from_property(p, stores).unwrap())
}

/// Whether making the builder property of one of the properties of `m` fails with `e`.
pub open spec fn variant_error(m: Map<Seq<u8>, PropertyV>, stores: Seq<ValueStoreV>, e: Error) -> bool {
    exists|k: Seq<u8>| m.contains_key(k) && any_from_property(m[k], stores) == Err::<AnyPropertyV, Error>(e)
}

/// The value of the property called `name` in the entry bytes `e`; `None` when the
/// table has no such property.
pub open spec fn variant_value(m: Map<Seq<u8>, AnyPropertyV>, name: Seq<u8>, e: Seq<u8>) -> Result<Option<RawValueV>, Error> {
    if m.contains_key(name) {
        match any_create(m[name], e) {
            Ok(v) => Ok(Some(v)),
            Err(er) => Err(er),
        }
    } else {
        Ok(None)
    }
}

/// The builder properties of an entry (or of one variant of it), by name.
pub struct AnyVariantBuilder {
    properties: Vec<(Vec<u8>, AnyProperty)>,
}

impl View for AnyVariantBuilder {
    type V = Map<Seq<u8>, AnyPropertyV>;

    closed spec fn view(&self) -> Map<Seq<u8>, AnyPropertyV> {
        assoc_to_map(builders_view(self.properties@))
    }
}

impl AnyVariantBuilder {
    #[verifier::type_invariant]
    closed spec fn names_unique(&self) -> bool {
        keys_unique(builders_view(self.properties@))
    }

    /// The builder properties of the layout properties `properties`; an error if one of
    /// them cannot be made.
    pub fn new<S: ValueStorageTrait>(properties: &Properties, value_storage: &S) -> (r: Result<AnyVariantBuilder, Error>)
        ensures
            r is Ok <==> variant_ok(properties@, value_storage.stores()),
            r matches Ok(b) ==> b@ == variant_builders(properties@, value_storage.stores()),
            r matches Err(e) ==> variant_error(properties@, value_storage.stores(), e),
    {
        let entries = properties.inner();
        let ghost src = entries_view(entries@);
        let ghost stores = value_storage.stores();
        let ghost pm = properties@;
        let mut out: Vec<(Vec<u8>, AnyProperty)> = Vec::new();
        let n = entries.len();
        let mut i: usize = 0;
        while i < n
            invariant
                n == entries@.len(),
                i <= n,
                src == entries_view(entries@),
                keys_unique(src),
                assoc_to_map(src) == pm,
                pm == properties@,
                stores == value_storage.stores(),
                out@.len() == i,
                forall|j: int|
                    0 <= j < i ==> (#[trigger] builders_view(out@)[j]).0 == src[j].0 && any_from_property(src[j].1, stores)
                        == Ok::<AnyPropertyV, Error>(builders_view(out@)[j].1),
            decreases n - i,
        {
            let name = &entries[i].0;
            let p = &entries[i].1;
            proof {
                assert(src[i as int] == (entries@[i as int].0@, entries@[i as int].1@));
            }
            match AnyProperty::from_property(p, value_storage) {
                Ok(ap) => {
                    let ghost before = out@;
                    out.push((copy_bytes(name), ap));
                    proof {
                        assert forall|j: int| 0 <= j < i + 1 implies (#[trigger] builders_view(out@)[j]).0 == src[j].0
                            && any_from_property(src[j].1, stores) == Ok::<AnyPropertyV, Error>(
                            builders_view(out@)[j].1,
                        ) by {
                            if j < i {
                                assert(out@[j] == before[j]);
                                assert(builders_view(before)[j] == builders_view(out@)[j]);
                            }
                        }
                    }
                },
                Err(e) => {
                    proof {
                        lemma_assoc_value(src, i as int);
                        assert(src[i as int] == (entries@[i as int].0@, entries@[i as int].1@));
                        assert(pm.contains_key(src[i as int].0));
                        assert(any_from_property(pm[src[i as int].0], stores) == Err::<AnyPropertyV, Error>(e));
                    }
                    return Err(e);
                },
            }
            i = i + 1;
        }
        let ghost ov = builders_view(out@);
        proof {
            assert forall|a: int, b: int| 0 <= a < ov.len() && 0 <= b < ov.len() && a != b implies ov[a].0 != ov[b].0 by {
                assert(ov[a].0 == src[a].0);
                assert(ov[b].0 == src[b].0);
            }
            assert forall|k: Seq<u8>| pm.contains_key(k) implies (#[trigger] any_from_property(pm[k], stores)) is Ok by {
                lemma_assoc_dom(src, k);
                let j = choose|j: int| 0 <= j < src.len() && src[j].0 == k;
                lemma_assoc_value(src, j);
                assert(ov[j].0 == src[j].0);
            }
            assert forall|k: Seq<u8>| #[trigger] assoc_to_map(ov).contains_key(k) == pm.contains_key(k) by {
                lemma_assoc_dom(src, k);
                lemma_assoc_dom(ov, k);
                if pm.contains_key(k) {
                    let j = choose|j: int| 0 <= j < src.len() && src[j].0 == k;
                    assert(ov[j].0 == src[j].0);
                }
                if assoc_to_map(ov).contains_key(k) {
                    let j = choose|j: int| 0 <= j < ov.len() && ov[j].0 == k;
                    assert(ov[j].0 == src[j].0);
                }
            }
            assert forall|k: Seq<u8>| pm.contains_key(k) implies assoc_to_map(ov)[k] == variant_builders(pm, stores)[k] by {
                lemma_assoc_dom(src, k);
                let j = choose|j: int| 0 <= j < src.len() && src[j].0 == k;
                lemma_assoc_value(src, j);
                assert(ov[j].0 == src[j].0);
                lemma_assoc_value(ov, j);
            }
            assert(assoc_to_map(ov) =~= variant_builders(pm, stores));
        }
        Ok(AnyVariantBuilder { properties: out })
    }

    /// Whether there is a property called `name`.
    pub fn contains(&self, name: &[u8]) -> (r: bool)
        ensures
            r == self@.contains_key(name@),
    {
        proof {
            use_type_invariant(self);
        }
        match find_key(&self.properties, name) {
            Some(j) => {
                proof {
                    lemma_assoc_value(builders_view(self.properties@), j as int);
                }
                true
            },
            None => {
                proof {
                    lemma_assoc_dom(builders_view(self.properties@), name@);
                    if self@.contains_key(name@) {
                        let j = choose|j: int|
                            0 <= j < builders_view(self.properties@).len() && builders_view(self.properties@)[j].0
                                == name@;
                        assert(self.properties@[j].0@ == name@);
                    }
                }
                false
            },
        }
    }

    /// The value of the property called `name` in the entry bytes `entry`; `None` when
    /// there is no such property.
    pub fn create_value(&self, name: &[u8], entry: &[u8]) -> (r: Result<Option<RawValue>, Error>)
        ensures
            match variant_value(self@, name@, entry@) {
                Ok(Some(v)) => (r matches Ok(Some(x)) && x@ == v),
                Ok(None) => r matches Ok(None),
                Err(e) => r matches Err(re) && re == e,
            },
    {
        proof {
            use_type_invariant(self);
        }
        match find_key(&self.properties, name) {
            Some(j) => {
                proof {
                    lemma_assoc_value(builders_view(self.properties@), j as int);
                }
                match self.properties[j].1.create(entry) {
                    Ok(v) => Ok(Some(v)),
                    Err(e) => Err(e),
                }
            },
            None => {
                proof {
                    lemma_assoc_dom(builders_view(self.properties@), name@);
                    if self@.contains_key(name@) {
                        let j = choose|j: int|
                            0 <= j < builders_view(self.properties@).len() && builders_view(self.properties@)[j].0
                                == name@;
                        assert(self.properties@[j].0@ == name@);
                    }
                }
                Ok(None)
            },
        }
    }
}

/// The builder properties of the entries of a store: those common to all entries,
/// and, when entries have variants, the variant id and the properties of each variant
/// with the variant names.
pub struct LazyEntryProperties {
    pub common: AnyVariantBuilder,
    pub variant_part: Option<(VariantIdProperty, Vec<AnyVariantBuilder>, Vec<(Vec<u8>, u8)>)>,
}

/// The mathematical content of [LazyEntryProperties].
pub struct LazyPropsV {
    pub common: Map<Seq<u8>, AnyPropertyV>,
    /// The position of the variant id, the properties of each variant and the variant names.
    pub variant_part: Option<(nat, Seq<Map<Seq<u8>, AnyPropertyV>>, Map<Seq<u8>, u8>)>,
}

/// The views of a sequence of builder tables.
pub open spec fn variant_builders_views(v: Seq<AnyVariantBuilder>) -> Seq<Map<Seq<u8>, AnyPropertyV>> {
    v.map_values(|b: AnyVariantBuilder| b@)
}

impl View for LazyEntryProperties {
    type V = LazyPropsV;

    open spec fn view(&self) -> LazyPropsV {
        LazyPropsV {
            common: self.common@,
            variant_part: match self.variant_part {
                None => None,
                Some((id, variants, names)) => Some(
                    (id.spec_offset(), variant_builders_views(variants@), assoc_to_map(names_view(names@))),
                ),
            },
        }
    }
}

/// Whether every property of the layout makes a builder property.
pub open spec fn builder_ok(layout: LayoutV, stores: Seq<ValueStoreV>) -> bool {
    &&& variant_ok(layout.common, stores)
    &&& match layout.variant_part {
        None => true,
        Some(vp) => forall|i: int| 0 <= i < vp.variants.len() ==> variant_ok(#[trigger] vp.variants[i], stores),
    }
}

/// The builder properties that the properties of the layout make.
pub open spec fn builder_props(layout: LayoutV, stores: Seq<ValueStoreV>) -> LazyPropsV {
    LazyPropsV {
        common: variant_builders(layout.common, stores),
        variant_part: match layout.variant_part {
            None => None,
            Some(vp) => Some(
                (
                    vp.variant_id_offset,
                    vp.variants.map_values(|m: Map<Seq<u8>, PropertyV>| variant_builders(m, stores)),
                    vp.names,
                ),
            ),
        },
    }
}

/// Whether making the builder property of one of the properties of the layout fails with `e`.
pub open spec fn builder_error(layout: LayoutV, stores: Seq<ValueStoreV>, e: Error) -> bool {
    ||| variant_error(layout.common, stores, e)
    ||| (layout.variant_part matches Some(vp) && exists|i: int|
        0 <= i < vp.variants.len() && variant_error(#[trigger] vp.variants[i], stores, e))
}

/// A copy of the variant names.
fn copy_names(names: &Vec<(Vec<u8>, u8)>) -> (r: Vec<(Vec<u8>, u8)>)
    ensures
        names_view(r@) == names_view(names@),
{
    let mut out: Vec<(Vec<u8>, u8)> = Vec::new();
    let n = names.len();
    let mut i: usize = 0;
    while i < n
        invariant
            n == names@.len(),
            i <= n,
            names_view(out@) == names_view(names@).take(i as int),
        decreases n - i,
    {
        let ghost before = out@;
        out.push((copy_bytes(&names[i].0), names[i].1));
        proof {
            assert(names_view(out@) =~= names_view(before).push(names_view(names@)[i as int]));
            assert(names_view(names@).take(i + 1) =~= names_view(names@).take(i as int).push(
                names_view(names@)[i as int],
            ));
        }
        i = i + 1;
    }
    assert(names_view(names@).take(n as int) =~= names_view(names@));
    out
}

/// `Rc::clone` of std: a new handle on the same builder properties.
#[verifier::external_body]
fn share_properties(p: &Rc<LazyEntryProperties>) -> (r: Rc<LazyEntryProperties>)
    ensures
        r@ == p@,
{
    Rc::clone(p)
}

/// A builder of entries: makes the entries of a store.
pub trait BuilderTrait {
    type Entry;

    /// Whether `r` is what making the entry `idx` gives.
    spec fn builds(&self, idx: u32, r: Result<Option<Self::Entry>, Error>) -> bool;

    /// The entry `idx`; `None` when there is no such entry.
    fn create_entry(&self, idx: u32) -> (r: Result<Option<Self::Entry>, Error>)
        ensures
            self.builds(idx, r),
    ;
}

/// The builder of the entries of an entry store, whose values are read lazily.
pub struct AnyBuilder {
    properties: Rc<LazyEntryProperties>,
    store: Arc<EntryStore>,
}

/// The mathematical content of an [AnyBuilder].
pub struct AnyBuilderV {
    pub props: LazyPropsV,
    pub store: EntryStoreV,
}

impl View for AnyBuilder {
    type V = AnyBuilderV;

    closed spec fn view(&self) -> AnyBuilderV {
        AnyBuilderV { props: self.properties@, store: self.store@ }
    }
}

impl AnyBuilder {
    /// The builder of the entries of `store`, with the value stores its properties
    /// need found in `value_storage`; an error if a property cannot be made.
    pub fn new<S: ValueStorageTrait>(store: Arc<EntryStore>, value_storage: &S) -> (r: Result<AnyBuilder, Error>)
        ensures
            r is Ok <==> builder_ok(store@.layout, value_storage.stores()),
            r matches Ok(b) ==> b@ == (AnyBuilderV {
                props: builder_props(store@.layout, value_storage.stores()),
                store: store@,
            }),
            r matches Err(e) ==> builder_error(store@.layout, value_storage.stores(), e),
    {
        let ghost stores = value_storage.stores();
        let layout = store.layout();
        let ghost lv = layout@;
        assert(lv == store@.layout);
        let common = match AnyVariantBuilder::new(&layout.common, value_storage) {
            Ok(c) => c,
            Err(e) => return Err(e),
        };
        let variant_part = match &layout.variant_part {
            None => None,
            Some(vp) => {
                let ghost vs = vp@.variants;
                let vars = vp.variants();
                let n = vars.len();
                let mut variants: Vec<AnyVariantBuilder> = Vec::new();
                let mut i: usize = 0;
                while i < n
                    invariant
                        n == vars@.len(),
                        vs == props_views(vars@),
                        vs == vp@.variants,
                        lv == store@.layout,
                        lv.variant_part == Some(vp@),
                        stores == value_storage.stores(),
                        i <= n,
                        variants@.len() == i,
                        forall|j: int| 0 <= j < i ==> variant_ok(#[trigger] vs[j], stores),
                        forall|j: int| 0 <= j < i ==> (#[trigger] variants@[j])@ == variant_builders(vs[j], stores),
                    decreases n - i,
                {
                    proof {
                        assert(vs[i as int] == vars@[i as int]@);
                    }
                    match AnyVariantBuilder::new(&vars[i], value_storage) {
                        Ok(b) => variants.push(b),
                        Err(e) => {
                            proof {
                                assert(variant_error(vs[i as int], stores, e));
                            }
                            return Err(e);
                        },
                    }
                    i = i + 1;
                }
                proof {
                    assert(variant_builders_views(variants@) =~= vs.map_values(
                        |m: Map<Seq<u8>, PropertyV>| variant_builders(m, stores),
                    ));
                }
                Some((vp.as_builder(), variants, copy_names(vp.names())))
            },
        };
        let properties = Rc::new(LazyEntryProperties { common, variant_part });
        Ok(AnyBuilder { properties, store })
    }

    /// A comparison of entries with `value` on their property `property_name`. An entry
    /// can only be compared when it has the property and its value is of the kind of
    /// `value` (see `property_defined`).
    pub fn new_property_compare(&self, property_name: Vec<u8>, value: Value) -> (r: PropertyCompare<'_>)
        ensures
            r.builder() == self,
            r.names_view() == seq![property_name@],
            r.values_view() == seq![value@],
            !r.spec_ordered(),
    {
        let mut names: Vec<Vec<u8>> = Vec::new();
        names.push(property_name);
        let mut values: Vec<Value> = Vec::new();
        values.push(value);
        PropertyCompare::new(self, names, values)
    }

    /// A comparison of entries with `values` on their properties `property_names`, in
    /// turn; the two lists have the same length. An entry can only be compared when it
    /// has the properties that decide and their values are of the kinds of `values`
    /// (see `property_defined`).
    pub fn new_multiple_property_compare(&self, property_names: Vec<Vec<u8>>, values: Vec<Value>) -> (r: PropertyCompare<'_>)
        requires
            property_names@.len() == values@.len(),
        ensures
            r.builder() == self,
            r.names_view() == bytes_views(property_names@),
            r.values_view() == values_views(values@),
            !r.spec_ordered(),
    {
        PropertyCompare::new(self, property_names, values)
    }
}

impl BuilderTrait for AnyBuilder {
    type Entry = LazyEntry;

    open spec fn builds(&self, idx: u32, r: Result<Option<LazyEntry>, Error>) -> bool {
        match spec_entry(self@.store, idx) {
            None => r matches Ok(None),
            Some(b) => (r matches Ok(Some(e)) && e@ == (LazyEntryV { props: self@.props, bytes: b })),
        }
    }

    fn create_entry(&self, idx: u32) -> (r: Result<Option<LazyEntry>, Error>) {
        match self.store.get_entry_reader(idx) {
            None => Ok(None),
            Some(bytes) => Ok(Some(LazyEntry::new(share_properties(&self.properties), slice_to_vec(bytes)))),
        }
    }
}

} // verus!
