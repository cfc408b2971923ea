use vstd::prelude::*;

verus! {

/// The errors that reading a Jubako structure can produce.
#[derive(Debug, Clone, Copy, PartialEq, Eq, Structural)]
pub enum Error {
    /// The buffer ends before the structure it should hold.
    UnexpectedEnd,
    /// The bytes hold a value that the format does not allow.
    InvalidFormat,
    /// An argument names an item that does not exist.
    Arg,
    /// A compressed region could not be decompressed.
    Decompression,
}

} // verus!
