//! Entries whose values are read only when asked for.
use super::builder::{variant_value, LazyEntryProperties, LazyPropsV, PropertyBuilderTrait};
use super::raw_value::{RawValue, RawValueV};
use crate::bases::spec_u8_at;
use crate::error::Error;
use std::rc::Rc;
use vstd::prelude::*;

verus! {

/// An entry: its variant and the values of its properties.
pub trait EntryTrait {
    /// What reading the variant id gives.
    spec fn variant_id_read(&self) -> Result<Option<u8>, Error>;

    /// What reading the value of the property called `name` gives.
    spec fn value_read(&self, name: Seq<u8>) -> Result<Option<RawValueV>, Error>;

    /// The variant of the entry; `None` when entries have no variants.
    fn get_variant_id(&self) -> (r: Result<Option<u8>, Error>)
        ensures
            r == self.variant_id_read(),
    ;

    /// The value of the property called `name`; `None` when the entry has no such property.
    fn get_value(&self, name: &[u8]) -> (r: Result<Option<RawValue>, Error>)
        ensures
            match self.value_read(name@) {
                Ok(Some(v)) => (r matches Ok(Some(x)) && x@ == v),
                Ok(None) => r matches Ok(None),
                Err(e) => r matches Err(re) && re == e,
            },
    ;
}

/// An entry of a store: its bytes and the builder properties of the store.
pub struct LazyEntry {
    properties: Rc<LazyEntryProperties>,
    bytes: Vec<u8>,
}

/// The mathematical content of a [LazyEntry].
pub struct LazyEntryV {
    pub props: LazyPropsV,
    pub bytes: Seq<u8>,
}

impl View for LazyEntry {
    type V = LazyEntryV;

    closed spec fn view(&self) -> LazyEntryV {
        LazyEntryV { props: self.properties@, bytes: self.bytes@ }
    }
}

/// The variant id of the entry; `None` when entries have no variants.
pub open spec fn entry_variant_id(v: LazyEntryV) -> Result<Option<u8>, Error> {
    match v.props.variant_part {
        None => Ok(None),
        Some((offset, _, _)) => match spec_u8_at(v.bytes, offset as int) {
            Err(e) => Err(e),
            Ok(id) => Ok(Some(id)),
        },
    }
}

/// The value of the property called `name`: a common property, or else a property
/// of the entry's variant. `None` when neither has such a property, or when the
/// variant id names no variant.
pub open spec fn entry_value(v: LazyEntryV, name: Seq<u8>) -> Result<Option<RawValueV>, Error> {
    if v.props.common.contains_key(name) {
        variant_value(v.props.common, name, v.bytes)
    } else {
        match v.props.variant_part {
            None => Ok(None),
            Some((offset, variants, _)) => match spec_u8_at(v.bytes, offset as int) {
                Err(e) => Err(e),
                Ok(id) => if variants.len() <= id {
                    Ok(None)
                } else {
                    variant_value(variants[id as int], name, v.bytes)
                },
            },
        }
    }
}

impl LazyEntry {
    /// The entry of bytes `bytes`, read with the builder properties `properties`.
    pub fn new(properties: Rc<LazyEntryProperties>, bytes: Vec<u8>) -> (r: LazyEntry)
        ensures
            r@ == (LazyEntryV { props: properties@, bytes: bytes@ }),
    {
        LazyEntry { properties, bytes }
    }
}

impl EntryTrait for LazyEntry {
    open spec fn variant_id_read(&self) -> Result<Option<u8>, Error> {
        entry_variant_id(self@)
    }

    open spec fn value_read(&self, name: Seq<u8>) -> Result<Option<RawValueV>, Error> {
        entry_value(self@, name)
    }

    fn get_variant_id(&self) -> (r: Result<Option<u8>, Error>) {
        match &self.properties.variant_part {
            None => Ok(None),
            Some((id_property, _, _)) => match id_property.create(self.bytes.as_slice()) {
                Ok(id) => Ok(Some(id)),
                Err(e) => Err(e),
            },
        }
    }

    fn get_value(&self, name: &[u8]) -> (r: Result<Option<RawValue>, Error>) {
        let bytes = self.bytes.as_slice();
        if self.properties.common.contains(name) {
            return self.properties.common.create_value(name, bytes);
        }
        match &self.properties.variant_part {
            None => Ok(None),
            Some((id_property, variants, _)) => {
                let id = match id_property.create(bytes) {
                    Ok(id) => id,
                    Err(e) => return Err(e),
                };
                if variants.len() <= id as usize {
                    Ok(None)
                } else {
                    variants[id as usize].create_value(name, bytes)
                }
            },
        }
    }
}

} // verus!
