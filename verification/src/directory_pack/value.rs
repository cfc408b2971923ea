//! The values of the entries of an index store, whose arrays may continue in a key store.
use super::key_store::{spec_key_data, KeyStore, KeyStoreV};
use super::raw_value::ContentAddress;
use crate::error::Error;
use vstd::prelude::*;

verus! {

/// A content: its address and, for a patch, the content it applies to.
#[derive(Debug, PartialEq, Eq)]
pub struct Content {
    pub content_address: ContentAddress,
    pub base: Option<Box<Content>>,
}

impl Content {
    pub fn new(content_address: ContentAddress, base: Option<Content>) -> (r: Content)
        ensures
            r.content_address == content_address,
            r.base == (match base {
                None => None,
                Some(b) => Some(Box::new(b)),
            }),
    {
        Content {
            content_address,
            base: match base {
                None => None,
                Some(b) => Some(Box::new(b)),
            },
        }
    }
}

/// The continuation of an array: a key of a key store.
#[derive(Debug, Clone, Copy, PartialEq, Eq, Structural)]
pub struct Extend {
    pub store_id: u8,
    pub key_id: u64,
}

impl Extend {
    pub fn new(store_id: u8, key_id: u64) -> (r: Extend)
        ensures
            r.store_id == store_id,
            r.key_id == key_id,
    {
        Extend { store_id, key_id }
    }
}

/// An array: the bytes stored in the entry and, maybe, a continuation in a key store.
#[derive(Debug, Clone, PartialEq, Eq)]
pub struct Array {
    pub base: Vec<u8>,
    pub extend: Option<Extend>,
}

impl Array {
    pub fn new(base: Vec<u8>, extend: Option<Extend>) -> (r: Array)
        ensures
            r.base@ == base@,
            r.extend == extend,
    {
        Array { base, extend }
    }

    /// The bytes of the array: its base followed by its continuation, read from `key_store`.
    pub fn resolve_to_vec(&self, key_store: &KeyStore) -> (r: Result<Vec<u8>, Error>)
        ensures
            match self.extend {
                None => (r matches Ok(v) && v@ == self.base@),
                Some(e) => match spec_key_data(key_store@, e.key_id) {
                    Ok(d) => (r matches Ok(v) && v@ == self.base@ + d),
                    Err(er) => r matches Err(re) && re == er,
                },
            },
    {
        let mut out: Vec<u8> = Vec::new();
        let n = self.base.len();
        let mut i: usize = 0;
        while i < n
            invariant
                n == self.base@.len(),
                i <= n,
                out@ == self.base@.take(i as int),
            decreases n - i,
        {
            out.push(self.base[i]);
            assert(self.base@.take(i + 1) =~= self.base@.take(i as int).push(self.base@[i as int]));
            i = i + 1;
        }
        assert(self.base@.take(n as int) =~= self.base@);
        match &self.extend {
            None => Ok(out),
            Some(e) => {
                let mut tail = match key_store.get_data(e.key_id) {
                    Ok(t) => t,
                    Err(er) => return Err(er),
                };
                out.append(&mut tail);
                Ok(out)
            },
        }
    }
}

/// A value of an entry.
#[derive(Debug, PartialEq, Eq)]
pub enum Value {
    Content(Content),
    U8(u8),
    U16(u16),
    U32(u32),
    U64(u64),
    I8(i8),
    I16(i16),
    I32(i32),
    I64(i64),
    Array(Array),
}

/// The mathematical content of a [Value]: an array is its bytes and its continuation.
pub enum ValueV {
    Content(Content),
    U8(u8),
    U16(u16),
    U32(u32),
    U64(u64),
    I8(i8),
    I16(i16),
    I32(i32),
    I64(i64),
    Array(Seq<u8>, Option<Extend>),
}

impl View for Value {
    type V = ValueV;

    open spec fn view(&self) -> ValueV {
        match self {
            Value::Content(c) => ValueV::Content(*c),
            Value::U8(v) => ValueV::U8(*v),
            Value::U16(v) => ValueV::U16(*v),
            Value::U32(v) => ValueV::U32(*v),
            Value::U64(v) => ValueV::U64(*v),
            Value::I8(v) => ValueV::I8(*v),
            Value::I16(v) => ValueV::I16(*v),
            Value::I32(v) => ValueV::I32(*v),
            Value::I64(v) => ValueV::I64(*v),
            Value::Array(a) => ValueV::Array(a.base@, a.extend),
        }
    }
}

} // verus!
