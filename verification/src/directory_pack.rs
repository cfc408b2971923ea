//! The directory pack: entry stores, value stores and the values of entries.
pub mod raw_layout;
pub mod layout;
pub mod builder;
pub mod value_store;
pub mod raw_value;
pub mod lex;
pub mod ordering;
pub mod entry_store;
pub mod lazy_entry;
pub mod range;
pub mod property_compare;
pub mod index;
pub mod finder;
pub mod key_store;
pub mod value;
pub mod entry_def;
pub mod index_store;
pub mod schema;
pub mod directory;
