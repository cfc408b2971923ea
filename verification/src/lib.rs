//! Jubako: reading and writing the building blocks of the Jubako container format.
//!
//! The library works on bytes held in memory: every parser takes a byte
//! buffer and a position and returns the decoded structure together with the
//! position just after it.

mod assoc;
mod ints;
pub mod bases;
pub mod error;
pub mod primitive;
pub mod pack;
pub mod main_pack;
pub mod reader;

pub use error::Error;
pub mod directory_pack;
