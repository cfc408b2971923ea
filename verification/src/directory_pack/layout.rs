//! The layout of the entries of an entry store: where each property of an
//! entry lies and how to read it.
use super::builder::VariantIdProperty;
use super::raw_layout::{
    lemma_raw_property_size, raw_views, spec_raw_layout, spec_raw_properties, PropertyKind,
    PropertyKindV, RawLayout, RawProperty, RawPropertyV,
};
use crate::assoc::{
    assoc_to_map, find_key, keys_unique, lemma_assoc_dom, lemma_assoc_push, lemma_assoc_update,
    lemma_assoc_value,
};
use crate::bases::{read_u8_at, read_uint_at, spec_u8_at, spec_uint_at};
use crate::error::Error;
use vstd::prelude::*;
use vstd::slice::slice_to_vec;

pub mod raw_property;
pub mod variant;
pub mod entry;
pub mod description;

verus! {

/// Where a property lies in an entry and how to read it.
#[derive(Debug, Clone, Copy, PartialEq, Eq)]
pub struct Property {
    pub offset: usize,
    pub kind: PropertyKind,
}

/// The mathematical content of a [Property].
pub struct PropertyV {
    pub offset: nat,
    pub kind: PropertyKindV,
}

impl View for Property {
    type V = PropertyV;

    open spec fn view(&self) -> PropertyV {
        PropertyV { offset: self.offset as nat, kind: self.kind@ }
    }
}

impl Property {
    pub fn new(offset: usize, kind: PropertyKind) -> (r: Property)
        ensures
            r.offset == offset,
            r.kind == kind,
    {
        Property { offset, kind }
    }
}

/// The total size that a sequence of property definitions takes in an entry.
pub open spec fn props_sum(raws: Seq<RawPropertyV>) -> nat
    decreases raws.len(),
{
    if raws.len() == 0 {
        0
    } else {
        props_sum(raws.drop_last()) + raws.last().size
    }
}

/// Whether a property of this kind has a value (padding and variant ids have none).
pub open spec fn has_value(k: PropertyKindV) -> bool {
    !(k is Padding) && !(k is VariantId)
}

/// The named properties that a sequence of definitions describes, laid out from `offset` on.
/// A later definition of a name replaces an earlier one.
pub open spec fn spec_properties(offset: nat, raws: Seq<RawPropertyV>) -> Map<Seq<u8>, PropertyV>
    decreases raws.len(),
{
    if raws.len() == 0 {
        Map::empty()
    } else {
        let m = spec_properties(offset, raws.drop_last());
        let last = raws.last();
        if has_value(last.kind) {
            m.insert(last.name, PropertyV { offset: offset + props_sum(raws.drop_last()), kind: last.kind })
        } else {
            m
        }
    }
}

/// Taking one more definition adds its size to the total.
pub proof fn lemma_props_sum_take(raws: Seq<RawPropertyV>, i: int)
    requires
        0 <= i < raws.len(),
    ensures
        props_sum(raws.take(i + 1)) == props_sum(raws.take(i)) + raws[i].size,
        raws.take(i + 1).drop_last() == raws.take(i),
{
    assert(raws.take(i + 1).drop_last() =~= raws.take(i));
}

/// A prefix of the definitions takes no more room than all of them.
pub proof fn lemma_props_sum_bound(raws: Seq<RawPropertyV>, i: int)
    requires
        0 <= i <= raws.len(),
    ensures
        props_sum(raws.take(i)) <= props_sum(raws),
    decreases raws.len() - i,
{
    if i < raws.len() {
        lemma_props_sum_bound(raws, i + 1);
        lemma_props_sum_take(raws, i);
    } else {
        assert(raws.take(i) =~= raws);
    }
}

/// Definitions of at most 64 bytes each take at most 64 bytes per definition.
pub proof fn lemma_props_sum_small(raws: Seq<RawPropertyV>)
    requires
        forall|j: int| 0 <= j < raws.len() ==> raws[j].size <= 64,
    ensures
        props_sum(raws) <= 64 * raws.len(),
    decreases raws.len(),
{
    if raws.len() > 0 {
        lemma_props_sum_small(raws.drop_last());
    }
}

/// The (name, property) pairs of a table seen as their views.
pub open spec fn entries_view(e: Seq<(Vec<u8>, Property)>) -> Seq<(Seq<u8>, PropertyV)> {
    e.map_values(|p: (Vec<u8>, Property)| (p.0@, p.1@))
}

/// A copy of the bytes of `v`.
pub fn copy_bytes(v: &Vec<u8>) -> (r: Vec<u8>)
    ensures
        r@ == v@,
{
    slice_to_vec(v.as_slice())
}

fn upsert_property(entries: &mut Vec<(Vec<u8>, Property)>, name: Vec<u8>, p: Property)
    requires
        keys_unique(entries_view(old(entries)@)),
    ensures
        keys_unique(entries_view(final(entries)@)),
        assoc_to_map(entries_view(final(entries)@)) == assoc_to_map(entries_view(old(entries)@)).insert(
            name@,
            p@,
        ),
{
    let ghost old_view = entries_view(entries@);
    match find_key(entries, name.as_slice()) {
        Some(j) => {
            proof {
                lemma_assoc_update(old_view, j as int, p@);
            }
            let ghost key = name@;
            entries.set(j, (name, p));
            assert(entries_view(entries@) =~= old_view.update(j as int, (key, p@)));
        },
        None => {
            proof {
                lemma_assoc_push(old_view, name@, p@);
            }
            let ghost key = name@;
            entries.push((name, p));
            assert(entries_view(entries@) =~= old_view.push((key, p@)));
        },
    }
}

/// The named properties of an entry (or of one variant of it).
#[derive(Debug)]
pub struct Properties {
    entries: Vec<(Vec<u8>, Property)>,
}

impl View for Properties {
    type V = Map<Seq<u8>, PropertyV>;

    closed spec fn view(&self) -> Map<Seq<u8>, PropertyV> {
        assoc_to_map(entries_view(self.entries@))
    }
}

impl Properties {
    #[verifier::type_invariant]
    closed spec fn names_unique(&self) -> bool {
        keys_unique(entries_view(self.entries@))
    }

    /// The properties that the definitions `raw_properties` describe, laid out from
    /// `initial_offset` on; padding and variant ids take room but have no name.
    pub fn new(initial_offset: usize, raw_properties: Vec<RawProperty>) -> (r: Properties)
        requires
            initial_offset + props_sum(raw_views(raw_properties@)) <= usize::MAX,
        ensures
            r@ == spec_properties(initial_offset as nat, raw_views(raw_properties@)),
    {
        let ghost raws = raw_views(raw_properties@);
        let n = raw_properties.len();
        let mut offset = initial_offset;
        let mut entries: Vec<(Vec<u8>, Property)> = Vec::new();
        let mut i: usize = 0;
        assert(raws.take(0) =~= Seq::<RawPropertyV>::empty());
        assert(entries_view(entries@) =~= Seq::<(Seq<u8>, PropertyV)>::empty());
        while i < n
            invariant
                n == raw_properties@.len(),
                raws == raw_views(raw_properties@),
                i <= n,
                initial_offset + props_sum(raws) <= usize::MAX,
                offset == initial_offset + props_sum(raws.take(i as int)),
                keys_unique(entries_view(entries@)),
                assoc_to_map(entries_view(entries@)) == spec_properties(
                    initial_offset as nat,
                    raws.take(i as int),
                ),
            decreases n - i,
        {
            let rp = &raw_properties[i];
            proof {
                lemma_props_sum_take(raws, i as int);
                lemma_props_sum_bound(raws, i + 1);
                assert(raws[i as int] == rp@);
                assert(raws.take(i + 1).last() == rp@);
            }
            let property = Property::new(offset, rp.kind);
            let named = match rp.kind {
                PropertyKind::Padding => false,
                PropertyKind::VariantId => false,
                _ => true,
            };
            if named {
                let name = copy_bytes(&rp.name);
                upsert_property(&mut entries, name, property);
            }
            offset = offset + rp.size;
            i = i + 1;
        }
        assert(raws.take(n as int) =~= raws);
        Properties { entries }
    }

    /// The property called `name`, if there is one.
    pub fn get(&self, name: &[u8]) -> (r: Option<&Property>)
        ensures
            r matches Some(p) ==> self@.contains_key(name@) && self@[name@] == p@,
            r is None ==> !self@.contains_key(name@),
    {
        proof {
            use_type_invariant(self);
        }
        match find_key(&self.entries, name) {
            Some(j) => {
                proof {
                    lemma_assoc_value(entries_view(self.entries@), j as int);
                }
                Some(&self.entries[j].1)
            },
            None => {
                proof {
                    lemma_assoc_dom(entries_view(self.entries@), name@);
                }
                None
            },
        }
    }

    /// Whether there is a property called `name`.
    pub fn contains(&self, name: &[u8]) -> (r: bool)
        ensures
            r == self@.contains_key(name@),
    {
        self.get(name).is_some()
    }

    /// All (name, property) pairs, each name once, in no particular order.
    pub fn iter(&self) -> (r: &Vec<(Vec<u8>, Property)>)
        ensures
            forall|j: int|
                0 <= j < r@.len() ==> self@.contains_key(#[trigger] r@[j].0@) && self@[r@[j].0@]
                    == r@[j].1@,
            forall|k: Seq<u8>| #[trigger]
                self@.contains_key(k) ==> exists|j: int| 0 <= j < r@.len() && r@[j].0@ == k,
            forall|a: int, b: int|
                0 <= a < r@.len() && 0 <= b < r@.len() && a != b ==> r@[a].0@ != r@[b].0@,
    {
        proof {
            use_type_invariant(self);
            let v = entries_view(self.entries@);
            assert forall|j: int| 0 <= j < self.entries@.len() implies self@.contains_key(
                #[trigger] self.entries@[j].0@,
            ) && self@[self.entries@[j].0@] == self.entries@[j].1@ by {
                lemma_assoc_value(v, j);
            }
            assert forall|k: Seq<u8>| #[trigger] self@.contains_key(k) implies exists|j: int|
                0 <= j < self.entries@.len() && self.entries@[j].0@ == k by {
                lemma_assoc_dom(v, k);
                let j = choose|j: int| 0 <= j < v.len() && v[j].0 == k;
                assert(self.entries@[j].0@ == v[j].0);
            }
            assert forall|a: int, b: int|
                0 <= a < self.entries@.len() && 0 <= b < self.entries@.len() && a != b implies self.entries@[a].0@
                != self.entries@[b].0@ by {
                assert(v[a].0 != v[b].0);
            }
        }
        &self.entries
    }

    /// The underlying table of (name, property) pairs.
    pub fn inner(&self) -> (r: &Vec<(Vec<u8>, Property)>)
        ensures
            assoc_to_map(entries_view(r@)) == self@,
            keys_unique(entries_view(r@)),
    {
        proof {
            use_type_invariant(self);
        }
        &self.entries
    }
}

} // verus!

verus! {

/// The (name, variant index) pairs of a variant part seen as their views.
pub open spec fn names_view(e: Seq<(Vec<u8>, u8)>) -> Seq<(Seq<u8>, u8)> {
    e.map_values(|p: (Vec<u8>, u8)| (p.0@, p.1))
}

fn upsert_name(names: &mut Vec<(Vec<u8>, u8)>, name: Vec<u8>, idx: u8)
    requires
        keys_unique(names_view(old(names)@)),
    ensures
        keys_unique(names_view(final(names)@)),
        assoc_to_map(names_view(final(names)@)) == assoc_to_map(names_view(old(names)@)).insert(
            name@,
            idx,
        ),
{
    let ghost old_view = names_view(names@);
    match find_key(names, name.as_slice()) {
        Some(j) => {
            proof {
                lemma_assoc_update(old_view, j as int, idx);
            }
            let ghost key = name@;
            names.set(j, (name, idx));
            assert(names_view(names@) =~= old_view.update(j as int, (key, idx)));
        },
        None => {
            proof {
                lemma_assoc_push(old_view, name@, idx);
            }
            let ghost key = name@;
            names.push((name, idx));
            assert(names_view(names@) =~= old_view.push((key, idx)));
        },
    }
}

/// The part of the entries that depends on their variant.
#[derive(Debug)]
pub struct VariantPart {
    /// Where the variant id lies in an entry.
    pub variant_id_offset: usize,
    /// The properties of each variant.
    pub variants: Vec<Properties>,
    names: Vec<(Vec<u8>, u8)>,
}

/// The mathematical content of a [VariantPart].
pub struct VariantPartV {
    pub variant_id_offset: nat,
    pub variants: Seq<Map<Seq<u8>, PropertyV>>,
    pub names: Map<Seq<u8>, u8>,
}

/// The views of a sequence of property tables.
pub open spec fn props_views(v: Seq<Properties>) -> Seq<Map<Seq<u8>, PropertyV>> {
    v.map_values(|p: Properties| p@)
}

impl View for VariantPart {
    type V = VariantPartV;

    closed spec fn view(&self) -> VariantPartV {
        VariantPartV {
            variant_id_offset: self.variant_id_offset as nat,
            variants: props_views(self.variants@),
            names: assoc_to_map(names_view(self.names@)),
        }
    }
}

impl VariantPart {
    #[verifier::type_invariant]
    closed spec fn names_unique(&self) -> bool {
        keys_unique(names_view(self.names@))
    }

    /// The properties of the variant called `name`, if there is one.
    pub fn get(&self, name: &[u8]) -> (r: Option<&Properties>)
        ensures
            match r {
                Some(p) => self@.names.contains_key(name@) && self@.names[name@] < self@.variants.len()
                    && p@ == self@.variants[self@.names[name@] as int],
                None => !self@.names.contains_key(name@) || self@.names[name@] >= self@.variants.len(),
            },
    {
        proof {
            use_type_invariant(self);
        }
        match find_key(&self.names, name) {
            Some(j) => {
                proof {
                    lemma_assoc_value(names_view(self.names@), j as int);
                }
                let idx = self.names[j].1 as usize;
                if idx < self.variants.len() {
                    Some(&self.variants[idx])
                } else {
                    None
                }
            },
            None => {
                proof {
                    lemma_assoc_dom(names_view(self.names@), name@);
                }
                None
            },
        }
    }

    /// The number of variants.
    pub fn len(&self) -> (r: usize)
        ensures
            r == self@.variants.len(),
    {
        self.variants.len()
    }

    /// The variant part of entries whose variant id lies at `variant_id_offset`, with
    /// the properties of each variant and the variant names (a later pair for a name
    /// replaces an earlier one).
    pub fn new(variant_id_offset: usize, variants: Vec<Properties>, names: Vec<(Vec<u8>, u8)>) -> (r: VariantPart)
        ensures
            r@ == (VariantPartV {
                variant_id_offset: variant_id_offset as nat,
                variants: props_views(variants@),
                names: assoc_to_map(names_view(names@)),
            }),
    {
        let ghost s = names_view(names@);
        let mut unique: Vec<(Vec<u8>, u8)> = Vec::new();
        let n = names.len();
        let mut i: usize = 0;
        assert(s.take(0) =~= Seq::<(Seq<u8>, u8)>::empty());
        while i < n
            invariant
                n == names@.len(),
                s == names_view(names@),
                i <= n,
                keys_unique(names_view(unique@)),
                assoc_to_map(names_view(unique@)) == assoc_to_map(s.take(i as int)),
            decreases n - i,
        {
            proof {
                assert(s.take(i + 1).drop_last() =~= s.take(i as int));
                assert(s[i as int] == (names@[i as int].0@, names@[i as int].1));
            }
            upsert_name(&mut unique, copy_bytes(&names[i].0), names[i].1);
            i = i + 1;
        }
        assert(s.take(n as int) =~= s);
        VariantPart { variant_id_offset, variants, names: unique }
    }

    /// The properties of each variant.
    pub fn variants(&self) -> (r: &Vec<Properties>)
        ensures
            props_views(r@) == self@.variants,
    {
        &self.variants
    }

    /// Whether there is no variant.
    pub fn is_empty(&self) -> (r: bool)
        ensures
            r == (self@.variants.len() == 0),
    {
        self.variants.len() == 0
    }

    /// The builder that reads the variant id of an entry.
    pub fn as_builder(&self) -> (r: VariantIdProperty)
        ensures
            r.spec_offset() == self@.variant_id_offset,
    {
        VariantIdProperty::new(self.variant_id_offset)
    }

    /// The (name, variant index) pairs, each name once.
    pub fn names(&self) -> (r: &Vec<(Vec<u8>, u8)>)
        ensures
            assoc_to_map(names_view(r@)) == self@.names,
            keys_unique(names_view(r@)),
    {
        proof {
            use_type_invariant(self);
        }
        &self.names
    }
}

/// The layout of the entries of a store.
#[derive(Debug)]
pub struct Layout {
    pub entry_count: u32,
    pub is_entry_checked: bool,
    pub common: Properties,
    pub variant_part: Option<VariantPart>,
    pub entry_size: u16,
}

/// The mathematical content of a [Layout].
pub struct LayoutV {
    pub entry_count: u32,
    pub is_entry_checked: bool,
    pub common: Map<Seq<u8>, PropertyV>,
    pub variant_part: Option<VariantPartV>,
    pub entry_size: u16,
}

impl View for Layout {
    type V = LayoutV;

    open spec fn view(&self) -> LayoutV {
        LayoutV {
            entry_count: self.entry_count,
            is_entry_checked: self.is_entry_checked,
            common: self.common@,
            variant_part: match self.variant_part {
                None => None,
                Some(v) => Some(v@),
            },
            entry_size: self.entry_size,
        }
    }
}

/// The number of leading definitions that are not a variant id: the common part.
pub open spec fn common_len(raws: Seq<RawPropertyV>) -> nat
    decreases raws.len(),
{
    if raws.len() == 0 {
        0
    } else if raws[0].kind is VariantId {
        0
    } else {
        1 + common_len(raws.drop_first())
    }
}

/// The common part ends at the first variant id.
pub proof fn lemma_common_len(raws: Seq<RawPropertyV>, i: int)
    requires
        0 <= i <= raws.len(),
        forall|j: int| 0 <= j < i ==> !(raws[j].kind is VariantId),
        i == raws.len() || raws[i].kind is VariantId,
    ensures
        common_len(raws) == i,
    decreases i,
{
    if i > 0 {
        lemma_common_len(raws.drop_first(), i - 1);
    }
}

/// The state of the reading of the variant definitions.
pub struct VState {
    /// The name of the variant being defined, once its variant id is read.
    pub name: Option<Seq<u8>>,
    /// The definitions of the variant being defined.
    pub def: Seq<RawPropertyV>,
    /// Their total size.
    pub size: nat,
    /// The variants defined so far.
    pub variants: Seq<Map<Seq<u8>, PropertyV>>,
    /// Their names.
    pub names: Map<Seq<u8>, u8>,
}

/// Reading one more definition of the variant part; `common_size` counts the variant id.
pub open spec fn vstep(st: VState, p: RawPropertyV, entry_size: int, common_size: nat) -> Result<VState, Error> {
    let is_vid = p.kind is VariantId;
    if !is_vid && st.name is None {
        Err(Error::InvalidFormat)
    } else if is_vid && st.name is Some {
        Err(Error::InvalidFormat)
    } else if is_vid {
        Ok(VState { name: Some(p.name), def: st.def, size: st.size, variants: st.variants, names: st.names })
    } else {
        let size = st.size + p.size;
        let def = st.def.push(p);
        if entry_size < common_size {
            Err(Error::InvalidFormat)
        } else if size > entry_size - common_size {
            Err(Error::InvalidFormat)
        } else if size == entry_size - common_size {
            if st.variants.len() >= 255 {
                Err(Error::InvalidFormat)
            } else {
                Ok(
                    VState {
                        name: None,
                        def: Seq::empty(),
                        size: 0,
                        variants: st.variants.push(spec_properties(common_size, def)),
                        names: st.names.insert(st.name.unwrap(), st.variants.len() as u8),
                    },
                )
            }
        } else {
            Ok(VState { name: st.name, def, size, variants: st.variants, names: st.names })
        }
    }
}

/// Reading all the definitions of `ps` from the state `st`.
pub open spec fn vrun(st: VState, ps: Seq<RawPropertyV>, entry_size: int, common_size: nat) -> Result<VState, Error>
    decreases ps.len(),
{
    if ps.len() == 0 {
        Ok(st)
    } else {
        match vstep(st, ps[0], entry_size, common_size) {
            Err(e) => Err(e),
            Ok(next) => vrun(next, ps.drop_first(), entry_size, common_size),
        }
    }
}

/// The state before any variant definition is read.
pub open spec fn vstart() -> VState {
    VState { name: None, def: Seq::empty(), size: 0, variants: Seq::empty(), names: Map::empty() }
}

/// The layout stored at `pos` and the position after it.
///
/// It holds the entry count (4 bytes), a flag byte, the entry size (2 bytes), the
/// variant count (1 byte) and the property definitions. The definitions before the
/// first variant id form the common part; each variant then starts with a variant
/// id and its definitions fill the rest of the entry exactly.
pub open spec fn spec_layout(s: Seq<u8>, pos: int) -> Result<(LayoutV, int), Error> {
    match spec_uint_at(s, pos, 4) {
        Err(e) => Err(e),
        Ok(entry_count) => match spec_u8_at(s, pos + 4) {
            Err(e) => Err(e),
            Ok(flag) => match spec_uint_at(s, pos + 5, 2) {
                Err(e) => Err(e),
                Ok(entry_size) => match spec_u8_at(s, pos + 7) {
                    Err(e) => Err(e),
                    Ok(variant_count) => match spec_raw_layout(s, pos + 8) {
                        Err(e) => Err(e),
                        Ok((raws, end)) => {
                            let nc = common_len(raws) as int;
                            let common_raws = raws.take(nc);
                            let common = spec_properties(0, common_raws);
                            let common_size = props_sum(common_raws);
                            let is_entry_checked = flag % 2 == 1;
                            if variant_count == 0 {
                                Ok(
                                    (
                                        LayoutV {
                                            entry_count: entry_count as u32,
                                            is_entry_checked,
                                            common,
                                            variant_part: None,
                                            entry_size: entry_size as u16,
                                        },
                                        end,
                                    ),
                                )
                            } else {
                                match vrun(vstart(), raws.skip(nc), entry_size as int, common_size + 1) {
                                    Err(e) => Err(e),
                                    Ok(st) => if st.def.len() != 0 {
                                        Err(Error::InvalidFormat)
                                    } else if st.variants.len() != variant_count {
                                        Err(Error::InvalidFormat)
                                    } else {
                                        Ok(
                                            (
                                                LayoutV {
                                                    entry_count: entry_count as u32,
                                                    is_entry_checked,
                                                    common,
                                                    variant_part: Some(
                                                        VariantPartV {
                                                            variant_id_offset: common_size,
                                                            variants: st.variants,
                                                            names: st.names,
                                                        },
                                                    ),
                                                    entry_size: entry_size as u16,
                                                },
                                                end,
                                            ),
                                        )
                                    },
                                }
                            }
                        },
                    },
                },
            },
        },
    }
}

/// Read definitions are as many as asked, each of at most 64 bytes.
pub proof fn lemma_raw_properties_small(s: Seq<u8>, pos: int, n: nat)
    ensures
        spec_raw_properties(s, pos, n) matches Ok((ps, end)) ==> ps.len() == n && forall|j: int|
            0 <= j < ps.len() ==> #[trigger] ps[j].size <= 64,
    decreases n,
{
    if n > 0 {
        lemma_raw_properties_small(s, pos, (n - 1) as nat);
        if let Ok((ps0, q)) = spec_raw_properties(s, pos, (n - 1) as nat) {
            lemma_raw_property_size(s, q);
        }
    }
}

/// A copy of a property definition.
pub fn copy_raw_property(p: &RawProperty) -> (r: RawProperty)
    ensures
        r@ == p@,
{
    RawProperty { size: p.size, name: copy_bytes(&p.name), kind: p.kind }
}

/// A read layout has at most 255 definitions of at most 64 bytes each.
pub proof fn lemma_raw_layout_small(s: Seq<u8>, pos: int)
    ensures
        spec_raw_layout(s, pos) matches Ok((ps, end)) ==> ps.len() <= 255 && forall|j: int|
            0 <= j < ps.len() ==> #[trigger] ps[j].size <= 64,
{
    if let Ok(n) = spec_u8_at(s, pos) {
        lemma_raw_properties_small(s, pos + 1, n as nat);
    }
}

/// The reading state that the exec variables describe.
pub open spec fn exec_state(
    name: Option<Vec<u8>>,
    def: Seq<RawProperty>,
    size: usize,
    variants: Seq<Properties>,
    names: Seq<(Vec<u8>, u8)>,
) -> VState {
    VState {
        name: match name {
            None => None,
            Some(n) => Some(n@),
        },
        def: raw_views(def),
        size: size as nat,
        variants: props_views(variants),
        names: assoc_to_map(names_view(names)),
    }
}

impl Layout {
    /// Parses the layout stored at `pos`; returns it with the position after it.
    pub fn parse(buf: &[u8], pos: usize) -> (r: Result<(Layout, usize), Error>)
        ensures
            match spec_layout(buf@, pos as int) {
                Ok((l, end)) => (r matches Ok((rl, re)) && rl@ == l && re == end),
                Err(e) => r == Err::<(Layout, usize), Error>(e),
            },
    {
        let blen = buf.len();
        let entry_count = read_uint_at(buf, pos, 4)?;
        let flag = read_u8_at(buf, pos + 4)?;
        let entry_size = read_uint_at(buf, pos + 5, 2)?;
        let variant_count = read_u8_at(buf, pos + 7)?;
        let (raw_layout, end) = RawLayout::parse(buf, pos + 8)?;
        proof {
            crate::bases::lemma_le_at_bound(buf@, pos as int, 4);
            crate::bases::lemma_le_at_bound(buf@, pos + 5, 2);
            crate::ints::lemma_pow256_values();
            lemma_raw_layout_small(buf@, pos + 8);
        }
        let raws = raw_layout.0;
        let ghost rv = raw_views(raws@);
        let n = raws.len();
        // The common part: the definitions before the first variant id.
        let mut common_raws: Vec<RawProperty> = Vec::new();
        let mut common_size: usize = 0;
        let mut nc: usize = 0;
        assert(rv.take(0) =~= Seq::<RawPropertyV>::empty());
        while nc < n && !raws[nc].is_variant_id()
            invariant
                n == raws@.len(),
                n <= 255,
                nc <= n,
                rv == raw_views(raws@),
                forall|j: int| 0 <= j < n ==> #[trigger] rv[j].size <= 64,
                forall|j: int| 0 <= j < nc ==> !(rv[j].kind is VariantId),
                raw_views(common_raws@) == rv.take(nc as int),
                common_size == props_sum(rv.take(nc as int)),
                common_size <= 64 * nc,
            decreases n - nc,
        {
            proof {
                lemma_props_sum_take(rv, nc as int);
                assert(raw_views(common_raws@).push(raws@[nc as int]@) =~= rv.take(nc + 1));
            }
            let p = copy_raw_property(&raws[nc]);
            common_size = common_size + raws[nc].size;
            proof {
                assert(raw_views(common_raws@.push(p)) =~= raw_views(common_raws@).push(p@));
            }
            common_raws.push(p);
            nc = nc + 1;
        }
        proof {
            lemma_common_len(rv, nc as int);
        }
        let common = Properties::new(0, common_raws);
        let is_entry_checked = flag % 2 == 1;
        if variant_count == 0 {
            return Ok(
                (
                    Layout {
                        entry_count: entry_count as u32,
                        is_entry_checked,
                        common,
                        variant_part: None,
                        entry_size: entry_size as u16,
                    },
                    end,
                ),
            );
        }
        let variant_id_offset = common_size;
        let cs1 = common_size + 1;
        let mut name: Option<Vec<u8>> = None;
        let mut def: Vec<RawProperty> = Vec::new();
        let mut size: usize = 0;
        let mut variants: Vec<Properties> = Vec::new();
        let mut names: Vec<(Vec<u8>, u8)> = Vec::new();
        let ghost es = entry_size as int;
        let mut i: usize = nc;
        proof {
            assert(exec_state(name, def@, size, variants@, names@) =~= vstart()) by {
                assert(raw_views(def@) =~= Seq::<RawPropertyV>::empty());
                assert(props_views(variants@) =~= Seq::<Map<Seq<u8>, PropertyV>>::empty());
                assert(names_view(names@) =~= Seq::<(Seq<u8>, u8)>::empty());
                assert(assoc_to_map(names_view(names@)) =~= Map::<Seq<u8>, u8>::empty());
            }
            assert(rv.skip(nc as int) =~= rv.skip(i as int));
            assert(forall|e: Error|
                vrun(vstart(), rv.skip(nc as int), es, cs1 as nat) == Err::<VState, Error>(e)
                    ==> spec_layout(buf@, pos as int) == Err::<(LayoutV, int), Error>(e));
        }
        while i < n
            invariant
                forall|e: Error|
                    vrun(vstart(), rv.skip(nc as int), es, cs1 as nat) == Err::<VState, Error>(e)
                        ==> spec_layout(buf@, pos as int) == Err::<(LayoutV, int), Error>(e),
                n == raws@.len(),
                n <= 255,
                nc <= i <= n,
                rv == raw_views(raws@),
                forall|j: int| 0 <= j < n ==> #[trigger] rv[j].size <= 64,
                es == entry_size as int,
                entry_size < 0x1_0000,
                cs1 == common_size + 1,
                common_size <= 64 * 255,
                vrun(vstart(), rv.skip(nc as int), es, cs1 as nat) == vrun(
                    exec_state(name, def@, size, variants@, names@),
                    rv.skip(i as int),
                    es,
                    cs1 as nat,
                ),
                keys_unique(names_view(names@)),
                size == props_sum(raw_views(def@)),
                size <= 0x1_0000,
            decreases n - i,
        {
            let ghost before = exec_state(name, def@, size, variants@, names@);
            proof {
                assert(rv.skip(i as int)[0] == rv[i as int]);
                assert(rv.skip(i as int).drop_first() =~= rv.skip(i + 1));
                assert(rv[i as int] == raws@[i as int]@);
                assert(rv.skip(i as int).len() > 0);
            }
            let is_vid = raws[i].is_variant_id();
            if !is_vid && name.is_none() {
                assert(vstep(before, rv[i as int], es, cs1 as nat) == Err::<VState, Error>(Error::InvalidFormat));
                return Err(Error::InvalidFormat);
            }
            if is_vid && name.is_some() {
                assert(vstep(before, rv[i as int], es, cs1 as nat) == Err::<VState, Error>(Error::InvalidFormat));
                return Err(Error::InvalidFormat);
            }
            if is_vid {
                name = Some(copy_bytes(&raws[i].name));
                proof {
                    assert(exec_state(name, def@, size, variants@, names@) == vstep(
                        before,
                        rv[i as int],
                        es,
                        cs1 as nat,
                    ).unwrap());
                }
            } else {
                let new_size = size + raws[i].size;
                let p = copy_raw_property(&raws[i]);
                proof {
                    assert(raw_views(def@.push(p)) =~= raw_views(def@).push(p@));
                    assert(raw_views(def@.push(p)).drop_last() =~= raw_views(def@));
                }
                def.push(p);
                if (entry_size as usize) < cs1 {
                    return Err(Error::InvalidFormat);
                }
                let avail = entry_size as usize - cs1;
                if new_size > avail {
                    assert(vstep(before, rv[i as int], es, cs1 as nat) == Err::<VState, Error>(Error::InvalidFormat));
                    return Err(Error::InvalidFormat);
                } else if new_size == avail {
                    if variants.len() >= 255 {
                        assert(vstep(before, rv[i as int], es, cs1 as nat) == Err::<VState, Error>(Error::InvalidFormat));
                        return Err(Error::InvalidFormat);
                    }
                    let idx = variants.len() as u8;
                    let mut d: Vec<RawProperty> = Vec::new();
                    std::mem::swap(&mut d, &mut def);
                    let props = Properties::new(cs1, d);
                    proof {
                        assert(props_views(variants@.push(props)) =~= props_views(variants@).push(props@));
                    }
                    variants.push(props);
                    let nm = match name {
                        Some(nm) => nm,
                        None => {
                            return Err(Error::InvalidFormat);
                        },
                    };
                    upsert_name(&mut names, nm, idx);
                    name = None;
                    size = 0;
                    proof {
                        assert(raw_views(def@) =~= Seq::<RawPropertyV>::empty());
                        assert(exec_state(name, def@, size, variants@, names@) =~= vstep(
                            before,
                            rv[i as int],
                            es,
                            cs1 as nat,
                        ).unwrap());
                    }
                } else {
                    size = new_size;
                    proof {
                        assert(exec_state(name, def@, size, variants@, names@) =~= vstep(
                            before,
                            rv[i as int],
                            es,
                            cs1 as nat,
                        ).unwrap());
                    }
                }
            }
            i = i + 1;
        }
        proof {
            assert(rv.skip(n as int) =~= Seq::<RawPropertyV>::empty());
        }
        if def.len() != 0 {
            return Err(Error::InvalidFormat);
        }
        if variants.len() != variant_count as usize {
            return Err(Error::InvalidFormat);
        }
        let variant_part = VariantPart { variant_id_offset, variants, names };
        Ok(
            (
                Layout {
                    entry_count: entry_count as u32,
                    is_entry_checked,
                    common,
                    variant_part: Some(variant_part),
                    entry_size: entry_size as u16,
                },
                end,
            ),
        )
    }
}

/// Reads the variant id of an entry and names the variants, in the order of their ids.
#[derive(Debug)]
pub struct VariantIdBuilder {
    property: VariantIdProperty,
    variant_names: Vec<Vec<u8>>,
}

impl VariantIdBuilder {
    /// The position of the variant id in an entry.
    pub closed spec fn spec_offset(&self) -> nat {
        self.property.spec_offset()
    }

    /// The variant names.
    pub closed spec fn names_view(&self) -> Seq<Seq<u8>> {
        self.variant_names@.map_values(|n: Vec<u8>| n@)
    }

    /// The property reading the variant id.
    pub fn property(&self) -> (r: VariantIdProperty)
        ensures
            r.spec_offset() == self.spec_offset(),
    {
        self.property
    }

    /// The variant names, in the order of their ids.
    pub fn variant_names(&self) -> (r: &Vec<Vec<u8>>)
        ensures
            r@.map_values(|n: Vec<u8>| n@) == self.names_view(),
    {
        &self.variant_names
    }
}

/// Whether `ns` lists each name of `names` once, by increasing variant index.
pub open spec fn sorted_names(ns: Seq<Seq<u8>>, names: Map<Seq<u8>, u8>) -> bool {
    &&& forall|i: int| 0 <= i < ns.len() ==> names.contains_key(#[trigger] ns[i])
    &&& forall|k: Seq<u8>| names.contains_key(k) ==> exists|i: int| 0 <= i < ns.len() && ns[i] == k
    &&& forall|i: int, j: int| 0 <= i <= j < ns.len() ==> names[#[trigger] ns[i]] <= names[#[trigger] ns[j]]
    &&& forall|i: int, j: int| 0 <= i < j < ns.len() ==> #[trigger] ns[i] != #[trigger] ns[j]
}

/// The names of `names`, stably sorted by their variant index.
fn sort_names(names: &Vec<(Vec<u8>, u8)>) -> (r: Vec<Vec<u8>>)
    requires
        keys_unique(names_view(names@)),
    ensures
        sorted_names(r@.map_values(|n: Vec<u8>| n@), assoc_to_map(names_view(names@))),
{
    let ghost s = names_view(names@);
    let ghost m = assoc_to_map(s);
    let n = names.len();
    let mut out: Vec<Vec<u8>> = Vec::new();
    let ghost mut pos: Seq<int> = Seq::empty();
    let mut k: u16 = 0;
    while k < 256
        invariant
            n == names@.len(),
            s == names_view(names@),
            keys_unique(s),
            k <= 256,
            pos.len() == out@.len(),
            forall|i: int| 0 <= i < pos.len() ==> 0 <= #[trigger] pos[i] < n && out@[i]@ == s[pos[i]].0 && s[pos[i]].1 < k,
            forall|i: int, i2: int| 0 <= i <= i2 < pos.len() ==> s[#[trigger] pos[i]].1 <= s[#[trigger] pos[i2]].1,
            forall|i: int, i2: int| 0 <= i < i2 < pos.len() ==> #[trigger] pos[i] != #[trigger] pos[i2],
            forall|j: int| 0 <= j < n && s[j].1 < k ==> exists|i: int| 0 <= i < pos.len() && #[trigger] pos[i] == j,
        decreases 256 - k,
    {
        let mut j: usize = 0;
        let ghost start = pos.len();
        while j < n
            invariant
                n == names@.len(),
                s == names_view(names@),
                keys_unique(s),
                k < 256,
                j <= n,
                start <= pos.len(),
                pos.len() == out@.len(),
                forall|i: int| 0 <= i < pos.len() ==> 0 <= #[trigger] pos[i] < n && out@[i]@ == s[pos[i]].0 && s[pos[i]].1 <= k,
                forall|i: int| 0 <= i < start ==> s[#[trigger] pos[i]].1 < k,
                forall|i: int| start <= i < pos.len() ==> #[trigger] pos[i] < j && s[pos[i]].1 == k,
                forall|i: int, i2: int| 0 <= i <= i2 < pos.len() ==> s[#[trigger] pos[i]].1 <= s[#[trigger] pos[i2]].1,
                forall|i: int, i2: int| 0 <= i < i2 < pos.len() ==> #[trigger] pos[i] != #[trigger] pos[i2],
                forall|jj: int| 0 <= jj < n && s[jj].1 < k ==> exists|i: int| 0 <= i < pos.len() && #[trigger] pos[i] == jj,
                forall|jj: int| 0 <= jj < j && s[jj].1 == k ==> exists|i: int| 0 <= i < pos.len() && #[trigger] pos[i] == jj,
            decreases n - j,
        {
            proof {
                assert(s[j as int] == (names@[j as int].0@, names@[j as int].1));
            }
            if names[j].1 as u16 == k {
                let ghost before = pos;
                out.push(copy_bytes(&names[j].0));
                proof {
                    pos = pos.push(j as int);
                    assert forall|jj: int| 0 <= jj < j + 1 && s[jj].1 == k implies exists|i: int|
                        0 <= i < pos.len() && #[trigger] pos[i] == jj by {
                        if jj == j {
                            assert(pos[pos.len() - 1] == jj);
                        } else {
                            let i = choose|i: int| 0 <= i < before.len() && #[trigger] before[i] == jj;
                            assert(pos[i] == jj);
                        }
                    }
                    assert forall|jj: int| 0 <= jj < n && s[jj].1 < k implies exists|i: int|
                        0 <= i < pos.len() && #[trigger] pos[i] == jj by {
                        let i = choose|i: int| 0 <= i < before.len() && #[trigger] before[i] == jj;
                        assert(pos[i] == jj);
                    }
                }
            }
            j = j + 1;
        }
        k = k + 1;
    }
    let ghost ns = out@.map_values(|b: Vec<u8>| b@);
    proof {
        assert forall|i: int| 0 <= i < ns.len() implies m.contains_key(#[trigger] ns[i]) && m[ns[i]] == s[pos[i]].1 by {
            lemma_assoc_value(s, pos[i]);
        }
        assert forall|key: Seq<u8>| m.contains_key(key) implies exists|i: int| 0 <= i < ns.len() && ns[i] == key by {
            lemma_assoc_dom(s, key);
            let j = choose|j: int| 0 <= j < s.len() && s[j].0 == key;
            let i = choose|i: int| 0 <= i < pos.len() && #[trigger] pos[i] == j;
            assert(ns[i] == key);
        }
        assert forall|i: int, i2: int| 0 <= i <= i2 < ns.len() implies m[#[trigger] ns[i]] <= m[#[trigger] ns[i2]] by {
            lemma_assoc_value(s, pos[i]);
            lemma_assoc_value(s, pos[i2]);
        }
        assert forall|i: int, i2: int| 0 <= i < i2 < ns.len() implies #[trigger] ns[i] != #[trigger] ns[i2] by {
            assert(pos[i] != pos[i2]);
        }
    }
    out
}

impl Layout {
    /// The properties of the variant called `name`, if there is one.
    pub fn get_variant(&self, name: &[u8]) -> (r: Option<&Properties>)
        ensures
            match self@.variant_part {
                None => r is None,
                Some(vp) => match r {
                    Some(p) => vp.names.contains_key(name@) && vp.names[name@] < vp.variants.len() && p@
                        == vp.variants[vp.names[name@] as int],
                    None => !vp.names.contains_key(name@) || vp.names[name@] >= vp.variants.len(),
                },
            },
    {
        match &self.variant_part {
            None => None,
            Some(vp) => vp.get(name),
        }
    }

    /// The number of variants.
    pub fn variant_len(&self) -> (r: usize)
        ensures
            r == match self@.variant_part {
                None => 0,
                Some(vp) => vp.variants.len(),
            },
    {
        match &self.variant_part {
            None => 0,
            Some(vp) => vp.len(),
        }
    }

    /// The reader of the variant id of the entries, with the variant names in the order
    /// of their ids; `None` when entries have no variants.
    pub fn variant_id_builder(&self) -> (r: Option<VariantIdBuilder>)
        ensures
            match self@.variant_part {
                None => r is None,
                Some(vp) => (r matches Some(b) && b.spec_offset() == vp.variant_id_offset && sorted_names(
                    b.names_view(),
                    vp.names,
                )),
            },
    {
        match &self.variant_part {
            None => None,
            Some(vp) => {
                let variant_names = sort_names(vp.names());
                Some(VariantIdBuilder { property: vp.as_builder(), variant_names })
            },
        }
    }
}

} // verus!
