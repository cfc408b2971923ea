//! The values of an entry's properties, as read from the entry.
use super::value_store::{data_request_ok, share_store, spec_get_data, ValueStore, ValueStoreV};
use crate::bases::BaseArray;
use crate::error::Error;
use std::sync::Arc;
use vstd::prelude::*;

verus! {

/// The address of a content: the pack holding it and its index in the pack.
#[derive(Debug, Clone, Copy, PartialEq, Eq, Structural)]
pub struct ContentAddress {
    pub pack_id: u16,
    pub content_id: u32,
}

impl ContentAddress {
    pub fn new(pack_id: u16, content_id: u32) -> (r: ContentAddress)
        ensures
            r.pack_id == pack_id,
            r.content_id == content_id,
    {
        ContentAddress { pack_id, content_id }
    }
}

/// The deported part of an array: a value in a value store.
#[derive(Debug)]
pub struct Extend {
    store: Arc<ValueStore>,
    value_id: u64,
}

impl Extend {
    /// The content of the store that holds the deported part.
    pub closed spec fn store_view(&self) -> ValueStoreV {
        self.store@
    }

    /// The id of the deported value in its store.
    pub closed spec fn spec_value_id(&self) -> u64 {
        self.value_id
    }

    /// The id of the deported value in its store.
    pub fn value_id(&self) -> (r: u64)
        ensures
            r == self.spec_value_id(),
    {
        self.value_id
    }

    pub fn new(store: Arc<ValueStore>, value_id: u64) -> (r: Extend)
        ensures
            r.store_view() == store@,
            r.spec_value_id() == value_id,
    {
        Extend { store, value_id }
    }

    /// The store that holds the deported part.
    pub fn store(&self) -> (r: &Arc<ValueStore>)
        ensures
            r@ == self.store_view(),
    {
        &self.store
    }
}

/// An array value: a fixed base part stored in the entry and an optional deported part.
#[derive(Debug, PartialEq, Eq)]
pub struct Array {
    size: Option<u64>,
    base: BaseArray,
    base_len: u8,
    extend: Option<Extend>,
}

/// The mathematical content of an [Array].
pub struct ArrayV {
    pub size: Option<u64>,
    pub base: Seq<u8>,
    pub base_len: u8,
    pub extend: Option<(ValueStoreV, u64)>,
}

impl View for Array {
    type V = ArrayV;

    closed spec fn view(&self) -> ArrayV {
        ArrayV {
            size: self.size,
            base: self.base@,
            base_len: self.base_len,
            extend: match self.extend {
                None => None,
                Some(e) => Some((e.store_view(), e.spec_value_id())),
            },
        }
    }
}

impl PartialEq for Extend {
    /// Two deported parts are the same when they have the same id.
    fn eq(&self, other: &Extend) -> (r: bool) {
        self.value_id == other.value_id
    }
}

impl Eq for Extend {}

impl vstd::std_specs::cmp::PartialEqSpecImpl for Extend {
    open spec fn obeys_eq_spec() -> bool {
        true
    }

    open spec fn eq_spec(&self, other: &Extend) -> bool {
        self.spec_value_id() == other.spec_value_id()
    }
}

impl Clone for Extend {
    fn clone(&self) -> (r: Extend)
        ensures
            r.store_view() == self.store_view(),
            r.spec_value_id() == self.spec_value_id(),
    {
        Extend { store: share_store(&self.store), value_id: self.value_id }
    }
}

/// A copy of an optional deported part.
fn clone_extend(e: &Option<Extend>) -> (r: Option<Extend>)
    ensures
        match (*e, r) {
            (None, None) => true,
            (Some(a), Some(b)) => a.store_view() == b.store_view() && a.spec_value_id() == b.spec_value_id(),
            _ => false,
        },
{
    match e {
        None => None,
        Some(x) => Some(x.clone()),
    }
}

impl Clone for Array {
    fn clone(&self) -> (r: Array)
        ensures
            r@ == self@,
    {
        proof {
            use_type_invariant(self);
        }
        Array { size: self.size, base: self.base, base_len: self.base_len, extend: clone_extend(&self.extend) }
    }
}

/// The bytes of the base part that belong to the array.
pub open spec fn array_head(a: ArrayV) -> Seq<u8> {
    a.base.take(a.base_len as int)
}

/// The length of the deported part, when the array size is known.
pub open spec fn array_tail_size(a: ArrayV) -> Option<u64> {
    match a.size {
        None => None,
        Some(s) => Some((s - a.base_len) as u64),
    }
}

/// The deported part of the array, as fetched from its value store.
pub open spec fn array_tail(a: ArrayV) -> Result<Seq<u8>, Error> {
    match a.extend {
        None => Ok(Seq::empty()),
        Some((store, id)) => spec_get_data(store, id, array_tail_size(a)),
    }
}

/// Whether the deported part of the array can be fetched: a plain value store needs
/// its size, so an array of unknown size cannot continue in one.
pub open spec fn array_fetchable(a: ArrayV) -> bool {
    match a.extend {
        None => true,
        Some((store, _)) => data_request_ok(store, array_tail_size(a)),
    }
}

/// Whether fetching the value is possible: only arrays fetch anything.
pub open spec fn raw_fetchable(r: RawValueV) -> bool {
    match r {
        RawValueV::Array(a) => array_fetchable(a),
        _ => true,
    }
}

/// The bytes of the array: its head followed by its deported part.
pub open spec fn array_bytes(a: ArrayV) -> Result<Seq<u8>, Error> {
    match array_tail(a) {
        Err(e) => Err(e),
        Ok(t) => Ok(array_head(a) + t),
    }
}

/// The deported part as the comparison fetches it: not at all when it is known to be empty.
pub open spec fn lazy_tail(a: ArrayV) -> Result<Seq<u8>, Error> {
    if array_tail_size(a) == Some(0u64) {
        Ok(Seq::empty())
    } else {
        array_tail(a)
    }
}

/// When the bytes of an array can be fetched, the comparison's lazy fetching gives the same.
pub proof fn lemma_tails_agree(a: ArrayV)
    requires
        array_bytes(a) is Ok,
    ensures
        lazy_tail(a) == array_tail(a),
{
    if array_tail_size(a) == Some(0u64) {
        assert(array_tail(a).unwrap() =~= Seq::<u8>::empty());
    }
}

/// The deported part of an optional [Extend], as plain values.
pub open spec fn extend_view(e: Option<Extend>) -> Option<(ValueStoreV, u64)> {
    match e {
        None => None,
        Some(x) => Some((x.store_view(), x.spec_value_id())),
    }
}

/// The array that [Array::new] builds: the base length is cut down to the size.
pub open spec fn array_new_v(size: Option<u64>, base: Seq<u8>, base_len: u8, extend: Option<(ValueStoreV, u64)>) -> ArrayV {
    ArrayV {
        size,
        base,
        base_len: match size {
            Some(s) => if s < base_len {
                s as u8
            } else {
                base_len
            },
            None => base_len,
        },
        extend,
    }
}

impl Array {
    #[verifier::type_invariant]
    closed spec fn base_fits(&self) -> bool {
        &&& self.base_len <= 31
        &&& (self.size matches Some(s) ==> self.base_len <= s)
    }

    /// An array of `size` bytes (if known) whose first `base_len` bytes (at most) are in
    /// `base`; the base length is cut down to the size.
    pub fn new(size: Option<u64>, base: BaseArray, base_len: u8, extend: Option<Extend>) -> (r: Array)
        requires
            base_len <= 31,
        ensures
            r@ == array_new_v(size, base@, base_len, extend_view(extend)),
            r@.size == size,
            r@.base == base@,
            r@.base_len == (match size {
                Some(s) => if s < base_len {
                    s as u8
                } else {
                    base_len
                },
                None => base_len,
            }),
            r@.extend == (match extend {
                None => None,
                Some(e) => Some((e.store_view(), e.spec_value_id())),
            }),
    {
        let base_len = match size {
            Some(s) => if s < base_len as u64 {
                s as u8
            } else {
                base_len
            },
            None => base_len,
        };
        Array { size, base, base_len, extend }
    }

    /// The size of the array, when the entry stores it.
    pub fn size(&self) -> (r: Option<u64>)
        ensures
            r == self@.size,
    {
        self.size
    }

    /// The number of base bytes that belong to the array.
    pub fn base_len(&self) -> (r: u8)
        ensures
            r == self@.base_len,
            r <= 31,
            self@.size matches Some(s) ==> r <= s,
    {
        proof {
            use_type_invariant(self);
        }
        self.base_len
    }

    /// The number of base bytes that belong to the array.
    pub fn head_len(&self) -> (r: usize)
        ensures
            r == array_head(self@).len(),
            r <= 31,
            self@.base.len() == 31,
    {
        proof {
            use_type_invariant(self);
        }
        self.base_len as usize
    }

    /// The byte of the head at position `i`.
    pub fn head_byte(&self, i: usize) -> (r: u8)
        requires
            i < array_head(self@).len(),
        ensures
            r == array_head(self@)[i as int],
    {
        proof {
            use_type_invariant(self);
        }
        self.base.data[i]
    }

    /// The deported part, fetched unless it is known to be empty.
    pub fn lazy_tail(&self) -> (r: Result<Option<&[u8]>, Error>)
        requires
            array_fetchable(self@),
        ensures
            match lazy_tail(self@) {
                Ok(t) => (r matches Ok(o) && match o {
                    None => t.len() == 0,
                    Some(d) => d@ == t,
                }),
                Err(e) => r == Err::<Option<&[u8]>, Error>(e),
            },
    {
        proof {
            use_type_invariant(self);
        }
        let tail_size = match self.size {
            None => None,
            Some(s) => Some(s - self.base_len as u64),
        };
        if tail_size == Some(0u64) {
            return Ok(None);
        }
        match &self.extend {
            None => Ok(None),
            Some(e) => {
                let d = e.store.get_data(e.value_id, tail_size)?;
                Ok(Some(d))
            },
        }
    }

    /// The base part.
    pub fn base(&self) -> (r: &BaseArray)
        ensures
            r@ == self@.base,
    {
        &self.base
    }

    /// The deported part, if any.
    pub fn extend(&self) -> (r: &Option<Extend>)
        ensures
            self@.extend == (match *r {
                None => None,
                Some(e) => Some((e.store_view(), e.spec_value_id())),
            }),
    {
        &self.extend
    }

    /// Appends the bytes of the array to `vec`: the head, then the deported part fetched
    /// from its value store. When fetching fails, only the head has been appended.
    pub fn resolve_to_vec(&self, vec: &mut Vec<u8>) -> (r: Result<(), Error>)
        requires
            array_fetchable(self@),
        ensures
            match array_bytes(self@) {
                Ok(b) => r is Ok && final(vec)@ == old(vec)@ + b,
                Err(e) => r == Err::<(), Error>(e) && final(vec)@ == old(vec)@ + array_head(self@),
            },
    {
        proof {
            use_type_invariant(self);
        }
        let ghost start = vec@;
        let n = self.base_len as usize;
        let mut i: usize = 0;
        while i < n
            invariant
                n == self.base_len,
                n <= 31,
                self.base.data@.len() == 31,
                i <= n,
                vec@ == start + self.base@.take(i as int),
            decreases n - i,
        {
            vec.push(self.base.data[i]);
            i = i + 1;
            assert(vec@ =~= start + self.base@.take(i as int));
        }
        match &self.extend {
            None => {
                assert(vec@ =~= start + array_head(self@) + Seq::<u8>::empty());
                Ok(())
            },
            Some(e) => {
                let tail_size = match self.size {
                    None => None,
                    Some(s) => Some(s - self.base_len as u64),
                };
                let data = e.store.get_data(e.value_id, tail_size)?;
                let m = data.len();
                let ghost mid = vec@;
                let mut j: usize = 0;
                while j < m
                    invariant
                        m == data@.len(),
                        j <= m,
                        vec@ == mid + data@.take(j as int),
                    decreases m - j,
                {
                    vec.push(data[j]);
                    j = j + 1;
                    assert(vec@ =~= mid + data@.take(j as int));
                }
                assert(data@.take(m as int) =~= data@);
                assert(vec@ =~= start + (array_head(self@) + data@));
                Ok(())
            },
        }
    }
}

/// A value read from an entry, before any deported part is fetched.
#[derive(Debug, Clone, PartialEq, Eq)]
pub enum RawValue {
    Content(ContentAddress),
    U8(u8),
    U16(u16),
    U32(u32),
    U64(u64),
    I8(i8),
    I16(i16),
    I32(i32),
    I64(i64),
    Array(Array),
}

/// The mathematical content of a [RawValue].
pub enum RawValueV {
    Content(ContentAddress),
    U8(u8),
    U16(u16),
    U32(u32),
    U64(u64),
    I8(i8),
    I16(i16),
    I32(i32),
    I64(i64),
    Array(ArrayV),
}

impl View for RawValue {
    type V = RawValueV;

    open spec fn view(&self) -> RawValueV {
        match self {
            RawValue::Content(c) => RawValueV::Content(*c),
            RawValue::U8(v) => RawValueV::U8(*v),
            RawValue::U16(v) => RawValueV::U16(*v),
            RawValue::U32(v) => RawValueV::U32(*v),
            RawValue::U64(v) => RawValueV::U64(*v),
            RawValue::I8(v) => RawValueV::I8(*v),
            RawValue::I16(v) => RawValueV::I16(*v),
            RawValue::I32(v) => RawValueV::I32(*v),
            RawValue::I64(v) => RawValueV::I64(*v),
            RawValue::Array(a) => RawValueV::Array(a@),
        }
    }
}

/// A value of an entry with its deported part fetched.
#[derive(Debug, Clone, PartialEq, Eq)]
pub enum Value {
    Content(ContentAddress),
    Unsigned(u64),
    Signed(i64),
    Array(Vec<u8>),
}

/// The mathematical content of a [Value].
pub enum ValueV {
    Content(ContentAddress),
    Unsigned(u64),
    Signed(i64),
    Array(Seq<u8>),
}

impl View for Value {
    type V = ValueV;

    open spec fn view(&self) -> ValueV {
        match self {
            Value::Content(c) => ValueV::Content(*c),
            Value::Unsigned(v) => ValueV::Unsigned(*v),
            Value::Signed(v) => ValueV::Signed(*v),
            Value::Array(a) => ValueV::Array(a@),
        }
    }
}

/// The value that a raw value resolves to.
pub open spec fn spec_resolve(r: RawValueV) -> Result<ValueV, Error> {
    match r {
        RawValueV::Content(c) => Ok(ValueV::Content(c)),
        RawValueV::U8(v) => Ok(ValueV::Unsigned(v as u64)),
        RawValueV::U16(v) => Ok(ValueV::Unsigned(v as u64)),
        RawValueV::U32(v) => Ok(ValueV::Unsigned(v as u64)),
        RawValueV::U64(v) => Ok(ValueV::Unsigned(v)),
        RawValueV::I8(v) => Ok(ValueV::Signed(v as i64)),
        RawValueV::I16(v) => Ok(ValueV::Signed(v as i64)),
        RawValueV::I32(v) => Ok(ValueV::Signed(v as i64)),
        RawValueV::I64(v) => Ok(ValueV::Signed(v)),
        RawValueV::Array(a) => match array_bytes(a) {
            Err(e) => Err(e),
            Ok(b) => Ok(ValueV::Array(b)),
        },
    }
}

/// Whether the raw value holds an unsigned integer.
pub open spec fn is_unsigned(r: RawValueV) -> bool {
    r is U8 || r is U16 || r is U32 || r is U64
}

/// Whether the raw value holds a signed integer.
pub open spec fn is_signed(r: RawValueV) -> bool {
    r is I8 || r is I16 || r is I32 || r is I64
}

impl RawValue {
    /// The integer of an unsigned value, widened.
    pub fn unsigned_value(&self) -> (r: Option<u64>)
        ensures
            is_unsigned(self@) ==> spec_resolve(self@) == Ok::<ValueV, Error>(ValueV::Unsigned(r.unwrap())),
            r is Some <==> is_unsigned(self@),
    {
        match self {
            RawValue::U8(v) => Some(*v as u64),
            RawValue::U16(v) => Some(*v as u64),
            RawValue::U32(v) => Some(*v as u64),
            RawValue::U64(v) => Some(*v),
            _ => None,
        }
    }

    /// The integer of a signed value, widened.
    pub fn signed_value(&self) -> (r: Option<i64>)
        ensures
            is_signed(self@) ==> spec_resolve(self@) == Ok::<ValueV, Error>(ValueV::Signed(r.unwrap())),
            r is Some <==> is_signed(self@),
    {
        match self {
            RawValue::I8(v) => Some(*v as i64),
            RawValue::I16(v) => Some(*v as i64),
            RawValue::I32(v) => Some(*v as i64),
            RawValue::I64(v) => Some(*v),
            _ => None,
        }
    }

    /// The value, with the deported part of an array fetched.
    pub fn get(&self) -> (r: Result<Value, Error>)
        requires
            raw_fetchable(self@),
        ensures
            match spec_resolve(self@) {
                Ok(v) => (r matches Ok(rv) && rv@ == v),
                Err(e) => r == Err::<Value, Error>(e),
            },
    {
        match self {
            RawValue::Content(c) => Ok(Value::Content(*c)),
            RawValue::U8(v) => Ok(Value::Unsigned(*v as u64)),
            RawValue::U16(v) => Ok(Value::Unsigned(*v as u64)),
            RawValue::U32(v) => Ok(Value::Unsigned(*v as u64)),
            RawValue::U64(v) => Ok(Value::Unsigned(*v)),
            RawValue::I8(v) => Ok(Value::Signed(*v as i64)),
            RawValue::I16(v) => Ok(Value::Signed(*v as i64)),
            RawValue::I32(v) => Ok(Value::Signed(*v as i64)),
            RawValue::I64(v) => Ok(Value::Signed(*v)),
            RawValue::Array(a) => {
                let mut vec = Vec::new();
                a.resolve_to_vec(&mut vec)?;
                assert(vec@ =~= Seq::<u8>::empty() + array_bytes(a@).unwrap());
                Ok(Value::Array(vec))
            },
        }
    }

    /// The bytes of an array value.
    pub fn as_vec(&self) -> (r: Result<Vec<u8>, Error>)
        requires
            *self is Array,
            raw_fetchable(self@),
        ensures
            match array_bytes(self->Array_0@) {
                Ok(b) => (r matches Ok(v) && v@ == b),
                Err(e) => r == Err::<Vec<u8>, Error>(e),
            },
    {
        match self {
            RawValue::Array(a) => {
                let mut vec = Vec::new();
                a.resolve_to_vec(&mut vec)?;
                assert(vec@ =~= Seq::<u8>::empty() + array_bytes(a@).unwrap());
                Ok(vec)
            },
            _ => Err(Error::Arg),
        }
    }

    /// The content address of a content value.
    pub fn as_content(&self) -> (r: ContentAddress)
        requires
            *self is Content,
        ensures
            r == self->Content_0,
    {
        match self {
            RawValue::Content(c) => *c,
            _ => ContentAddress { pack_id: 0, content_id: 0 },
        }
    }

    /// The integer of an unsigned value.
    pub fn as_unsigned(&self) -> (r: u64)
        requires
            is_unsigned(self@),
        ensures
            spec_resolve(self@) == Ok::<ValueV, Error>(ValueV::Unsigned(r)),
    {
        match self {
            RawValue::U8(v) => *v as u64,
            RawValue::U16(v) => *v as u64,
            RawValue::U32(v) => *v as u64,
            RawValue::U64(v) => *v,
            _ => 0,
        }
    }

    /// The integer of a signed value.
    pub fn as_signed(&self) -> (r: i64)
        requires
            is_signed(self@),
        ensures
            spec_resolve(self@) == Ok::<ValueV, Error>(ValueV::Signed(r)),
    {
        match self {
            RawValue::I8(v) => *v as i64,
            RawValue::I16(v) => *v as i64,
            RawValue::I32(v) => *v as i64,
            RawValue::I64(v) => *v,
            _ => 0,
        }
    }
}

} // verus!
