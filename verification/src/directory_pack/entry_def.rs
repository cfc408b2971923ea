//! The entry descriptions of index stores, under the names of keys: a key definition is
//! a property definition, a key a laid-out property, a variant definition a variant and
//! an entry definition an entry description.
pub use super::layout::entry::{Entry as EntryDef, VariantEntry};
pub use super::layout::raw_property::{RawProperty as KeyDef, RawPropertyKind as KeyDefKind};
pub use super::layout::variant::{Property as Key, PropertyKind as KeyKind, Variant as VariantDef};
