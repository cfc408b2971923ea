//! Schemas: what makes the builder of the entries of a store.
use super::builder::{builder_error, builder_ok, builder_props, AnyBuilder, AnyBuilderV, BuilderTrait};
use super::entry_store::EntryStore;
use super::value_store::ValueStorageTrait;
use crate::error::Error;
use std::rc::Rc;
use std::sync::Arc;
use vstd::prelude::*;

verus! {

/// A schema: makes the builder of the entries of a store.
pub trait SchemaTrait {
    type Builder: BuilderTrait;

    /// Whether `r` is what making the builder of `store` gives, with the value stores
    /// `stores`.
    spec fn makes(&self, store: &EntryStore, stores: Seq<super::value_store::ValueStoreV>, r: Result<Rc<Self::Builder>, Error>) -> bool;

    /// The builder of the entries of `store`.
    fn create_builder<S: ValueStorageTrait>(&self, store: Arc<EntryStore>, value_storage: &S) -> (r: Result<Rc<Self::Builder>, Error>)
        ensures
            self.makes(&*store, value_storage.stores(), r),
    ;
}

/// The schema that reads any entry: its builder reads every property.
pub struct AnySchema {}

impl SchemaTrait for AnySchema {
    type Builder = AnyBuilder;

    open spec fn makes(&self, store: &EntryStore, stores: Seq<super::value_store::ValueStoreV>, r: Result<Rc<AnyBuilder>, Error>) -> bool {
        &&& r is Ok <==> builder_ok(store@.layout, stores)
        &&& r matches Ok(b) ==> b@ == (AnyBuilderV { props: builder_props(store@.layout, stores), store: store@ })
        &&& r matches Err(e) ==> builder_error(store@.layout, stores, e)
    }

    fn create_builder<S: ValueStorageTrait>(&self, store: Arc<EntryStore>, value_storage: &S) -> (r: Result<Rc<AnyBuilder>, Error>) {
        match AnyBuilder::new(store, value_storage) {
            Ok(b) => Ok(Rc::new(b)),
            Err(e) => Err(e),
        }
    }
}

} // verus!
