//! A pack that may be missing from the places where it was looked for.
use crate::main_pack::{PackInfo, PackInfoV};
use vstd::prelude::*;

verus! {

/// A pack found, or the information of a pack that could not be found.
#[allow(non_camel_case_types)]
#[derive(Debug)]
pub enum MayMissPack<T> {
    MISSING(PackInfo),
    FOUND(T),
}

/// The information of a missing pack, when the pack is missing.
pub open spec fn missing_info<T>(m: &MayMissPack<T>) -> Option<PackInfoV> {
    match m {
        MayMissPack::MISSING(p) => Some(p@),
        MayMissPack::FOUND(_) => None,
    }
}

impl<T> MayMissPack<T> {
    /// Applies `f` to a found pack; a missing pack stays missing.
    pub fn map<U, F>(self, f: F) -> (r: MayMissPack<U>)
        where
            F: FnOnce(T) -> U,
        requires
            self matches MayMissPack::FOUND(x) ==> f.requires((x,)),
        ensures
            missing_info(&r) == missing_info(&self),
            match self {
                MayMissPack::FOUND(x) => (r matches MayMissPack::FOUND(y) && f.ensures((x,), y)),
                MayMissPack::MISSING(_) => r is MISSING,
            },
    {
        match self {
            MayMissPack::FOUND(x) => MayMissPack::FOUND(f(x)),
            MayMissPack::MISSING(pack_info) => MayMissPack::MISSING(pack_info),
        }
    }

    /// The found pack; the pack must have been found.
    pub fn unwrap(self) -> (r: T)
        requires
            self is FOUND,
        ensures
            self == MayMissPack::<T>::FOUND(r),
    {
        match self {
            MayMissPack::FOUND(x) => x,
            MayMissPack::MISSING(_) => vstd::pervasive::unreached(),
        }
    }

    /// The found pack, or `None` when it is missing.
    pub fn get(self) -> (r: Option<T>)
        ensures
            match self {
                MayMissPack::FOUND(x) => r == Some(x),
                MayMissPack::MISSING(_) => r is None,
            },
    {
        match self {
            MayMissPack::FOUND(x) => Some(x),
            MayMissPack::MISSING(_) => None,
        }
    }

    /// A view of the pack by reference; a missing pack keeps a copy of its information.
    pub fn as_ref(&self) -> (r: MayMissPack<&T>)
        ensures
            missing_info(&r) == missing_info(self),
            match *self {
                MayMissPack::FOUND(x) => (r matches MayMissPack::FOUND(y) && *y == x),
                MayMissPack::MISSING(_) => r is MISSING,
            },
    {
        match self {
            MayMissPack::FOUND(x) => MayMissPack::FOUND(x),
            MayMissPack::MISSING(pack_info) => MayMissPack::MISSING(pack_info.copy()),
        }
    }
}

impl<T, E> MayMissPack<Result<T, E>> {
    /// Turns a found result into a result of a found pack; a missing pack is no error.
    pub fn transpose(self) -> (r: Result<MayMissPack<T>, E>)
        ensures
            match self {
                MayMissPack::FOUND(Ok(x)) => r == Ok::<MayMissPack<T>, E>(MayMissPack::FOUND(x)),
                MayMissPack::FOUND(Err(e)) => r == Err::<MayMissPack<T>, E>(e),
                MayMissPack::MISSING(p) => r == Ok::<MayMissPack<T>, E>(MayMissPack::MISSING(p)),
            },
    {
        match self {
            MayMissPack::FOUND(Ok(x)) => Ok(MayMissPack::FOUND(x)),
            MayMissPack::FOUND(Err(e)) => Err(e),
            MayMissPack::MISSING(pack_info) => Ok(MayMissPack::MISSING(pack_info)),
        }
    }
}

} // verus!
