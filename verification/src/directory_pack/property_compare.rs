//! Comparing the entries of a store with reference values, property by property.
use super::builder::{AnyBuilder, BuilderTrait};
use super::entry_store::spec_entry;
use super::lazy_entry::{entry_value, EntryTrait, LazyEntry, LazyEntryV};
use super::ordering::{order_defined, value_order};
use super::range::CompareTrait;
use super::raw_value::{Value, ValueV};
use crate::error::Error;
use std::cmp::Ordering;
use vstd::prelude::*;

verus! {

/// The views of a sequence of names.
pub open spec fn bytes_views(v: Seq<Vec<u8>>) -> Seq<Seq<u8>> {
    v.map_values(|b: Vec<u8>| b@)
}

/// The views of a sequence of values.
pub open spec fn values_views(v: Seq<Value>) -> Seq<ValueV> {
    v.map_values(|x: Value| x@)
}

/// Whether the entry's property `name` can be compared with `v`: reading it fails (an
/// error to report), or the entry has it and its value can be compared with `v` (it is
/// of a comparable kind and, for an array, its deported part can be fetched).
pub open spec fn one_defined(e: LazyEntryV, name: Seq<u8>, v: ValueV) -> bool {
    match entry_value(e, name) {
        Err(_) => true,
        Ok(None) => false,
        Ok(Some(x)) => order_defined(x, v) && value_order(x, v) != Ok::<Option<Ordering>, Error>(None),
    }
}

/// Whether comparing the entry with `values` from position `i` on never meets a
/// property the entry lacks nor a value it cannot compare, up to the position that
/// decides.
pub open spec fn compare_defined(e: LazyEntryV, names: Seq<Seq<u8>>, values: Seq<ValueV>, i: int) -> bool
    decreases names.len() - i,
{
    if i < 0 || i >= names.len() || i >= values.len() {
        true
    } else {
        one_defined(e, names[i], values[i]) && (compare_one(e, names[i], values[i]) == Ok::<Ordering, Error>(
            Ordering::Equal,
        ) ==> compare_defined(e, names, values, i + 1))
    }
}

/// Compares the value of the entry's property `name` with `v`; only asked where
/// [one_defined] holds.
#[verifier::opaque]
pub open spec fn compare_one(e: LazyEntryV, name: Seq<u8>, v: ValueV) -> Result<Ordering, Error> {
    match entry_value(e, name) {
        Err(er) => Err(er),
        Ok(None) => Err(Error::Arg),
        Ok(Some(x)) => match value_order(x, v) {
            Err(er) => Err(er),
            Ok(None) => Err(Error::Arg),
            Ok(Some(c)) => Ok(c),
        },
    }
}

/// Compares the entry with `values`, from position `i` on, each value with the
/// property of the same position in `names`: the first that differs decides.
pub open spec fn compare_from(e: LazyEntryV, names: Seq<Seq<u8>>, values: Seq<ValueV>, i: int) -> Result<Ordering, Error>
    decreases names.len() - i,
{
    if i < 0 || i >= names.len() || i >= values.len() {
        Ok(Ordering::Equal)
    } else {
        match compare_one(e, names[i], values[i]) {
            Ok(Ordering::Equal) => compare_from(e, names, values, i + 1),
            r => r,
        }
    }
}

/// Compares the value of the entry's property `name` with `value`.
fn compare_one_value(entry: &LazyEntry, name: &[u8], value: &Value) -> (r: Result<Ordering, Error>)
    requires
        one_defined(entry@, name@, value@),
    ensures
        r == compare_one(entry@, name@, value@),
{
    reveal(compare_one);
    let v = match entry.get_value(name) {
        Ok(Some(v)) => v,
        Ok(None) => return vstd::pervasive::unreached(),
        Err(e) => return Err(e),
    };
    match v.partial_cmp(value) {
        Err(e) => Err(e),
        Ok(None) => vstd::pervasive::unreached(),
        Ok(Some(c)) => Ok(c),
    }
}

/// A comparison of the entries that a builder makes with reference values.
pub struct PropertyCompare<'builder> {
    builder: &'builder AnyBuilder,
    property_names: Vec<Vec<u8>>,
    values: Vec<Value>,
    ordered: bool,
}

impl<'builder> PropertyCompare<'builder> {
    /// The builder whose entries are compared.
    pub closed spec fn builder(&self) -> &'builder AnyBuilder {
        self.builder
    }

    /// The names of the compared properties.
    pub closed spec fn names_view(&self) -> Seq<Seq<u8>> {
        bytes_views(self.property_names@)
    }

    /// The reference values.
    pub closed spec fn values_view(&self) -> Seq<ValueV> {
        values_views(self.values@)
    }

    /// A comparison of the entries of `builder` with `values` on the properties
    /// `property_names`; the two lists have the same length.
    pub fn new(builder: &'builder AnyBuilder, property_names: Vec<Vec<u8>>, values: Vec<Value>) -> (r: PropertyCompare<'builder>)
        requires
            property_names@.len() == values@.len(),
        ensures
            r.builder() == builder,
            r.names_view() == bytes_views(property_names@),
            r.values_view() == values_views(values@),
            !r.spec_ordered(),
    {
        PropertyCompare { builder, property_names, values, ordered: false }
    }
}

/// Whether entry `idx` of the builder exists and can be compared with the values.
pub open spec fn property_defined(b: &AnyBuilder, names: Seq<Seq<u8>>, values: Seq<ValueV>, idx: u32) -> bool {
    match spec_entry(b@.store, idx) {
        None => false,
        Some(bytes) => compare_defined(LazyEntryV { props: b@.props, bytes }, names, values, 0),
    }
}

/// What comparing entry `idx` of the builder with the values gives; only asked where
/// [property_defined] holds.
pub open spec fn property_comparison(b: &AnyBuilder, names: Seq<Seq<u8>>, values: Seq<ValueV>, idx: u32) -> Result<Ordering, Error> {
    match spec_entry(b@.store, idx) {
        None => Err(Error::Arg),
        Some(bytes) => compare_from(LazyEntryV { props: b@.props, bytes }, names, values, 0),
    }
}

/// A comparison made on one property with one value (as `new_property_compare` makes
/// it) and one made on the one-element lists of that property and value (as
/// `new_multiple_property_compare` makes it) over the same builder agree: both are
/// unordered, and every entry compares alike and can be compared alike.
pub proof fn lemma_single_is_multiple(
    single: &PropertyCompare,
    multiple: &PropertyCompare,
    names: Seq<Vec<u8>>,
    values: Seq<Value>,
)
    requires
        names.len() == 1,
        values.len() == 1,
        single.builder() == multiple.builder(),
        single.names_view() == seq![names[0]@],
        single.values_view() == seq![values[0]@],
        !single.spec_ordered(),
        multiple.names_view() == bytes_views(names),
        multiple.values_view() == values_views(values),
        !multiple.spec_ordered(),
    ensures
        single.spec_ordered() == multiple.spec_ordered(),
        forall|idx: u32| #[trigger] single.comparison(idx) == multiple.comparison(idx),
        forall|idx: u32| #[trigger] single.defined(idx) == multiple.defined(idx),
{
    assert(bytes_views(names) =~= seq![names[0]@]);
    assert(values_views(values) =~= seq![values[0]@]);
}

impl<'builder> CompareTrait for PropertyCompare<'builder> {
    closed spec fn spec_ordered(&self) -> bool {
        self.ordered
    }

    open spec fn comparison(&self, idx: u32) -> Result<Ordering, Error> {
        property_comparison(self.builder(), self.names_view(), self.values_view(), idx)
    }

    open spec fn defined(&self, idx: u32) -> bool {
        property_defined(self.builder(), self.names_view(), self.values_view(), idx)
    }

    fn ordered(&self) -> (r: bool) {
        self.ordered
    }

    fn compare_entry(&self, idx: u32) -> (r: Result<Ordering, Error>) {
        let entry = match self.builder.create_entry(idx) {
            Ok(Some(e)) => e,
            Ok(None) => return vstd::pervasive::unreached(),
            Err(e) => return Err(e),
        };
        let ghost ev = entry@;
        let ghost names = self.names_view();
        let ghost values = self.values_view();
        let n = self.property_names.len();
        let m = self.values.len();
        assert(self.comparison(idx) == compare_from(ev, names, values, 0));
        let mut i: usize = 0;
        let ghost mut gi: int = 0;
        while i < n && i < m
            invariant
                n == self.property_names@.len(),
                m == self.values@.len(),
                names == bytes_views(self.property_names@),
                values == values_views(self.values@),
                i <= n,
                gi == i,
                ev == entry@,
                self.comparison(idx) == compare_from(ev, names, values, 0),
                compare_from(ev, names, values, 0) == compare_from(ev, names, values, gi),
                compare_defined(ev, names, values, gi),
            decreases n - i,
        {
            proof {
                assert(names[gi] == self.property_names@[gi]@);
                assert(values[gi] == self.values@[gi]@);
            }
            let c = compare_one_value(&entry, self.property_names[i].as_slice(), &self.values[i]);
            proof {
                assert(c == compare_one(ev, names[gi], values[gi]));
                if c != Ok::<Ordering, Error>(Ordering::Equal) {
                    assert(compare_from(ev, names, values, gi) == c);
                }
            }
            match c {
                Ok(Ordering::Equal) => {},
                _ => return c,
            }
            i = i + 1;
            proof {
                gi = gi + 1;
            }
        }
        Ok(Ordering::Equal)
    }
}

} // verus!
