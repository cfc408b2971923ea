//! Property definitions of index stores: a kind and the size it takes in an entry.
use crate::bases::in_bounds;
use crate::error::Error;
use vstd::prelude::*;

verus! {

/// The kind of a property definition.
#[derive(Debug, Clone, Copy, PartialEq, Eq, Structural)]
pub enum RawPropertyKind {
    Padding,
    /// A content address, with the number of base contents it patches.
    ContentAddress(u8),
    UnsignedInt,
    SignedInt,
    CharArray,
    /// A key into a key store (whether the array has a base part, and the store).
    PString(bool, u8),
    VariantId,
}

/// A property definition: the size it takes in an entry and its kind.
#[derive(Debug, Clone, Copy, PartialEq, Eq, Structural)]
pub struct RawProperty {
    pub size: usize,
    pub kind: RawPropertyKind,
}

impl RawProperty {
    pub fn new(kind: RawPropertyKind, size: usize) -> (r: RawProperty)
        ensures
            r.size == size,
            r.kind == kind,
    {
        RawProperty { size, kind }
    }
}

/// The property definition stored at `pos` and the position after it.
///
/// Its first byte holds the type in its high half and data in its low half: padding
/// (0) of data + 1 bytes; a content address (1) of (data + 1) * 4 bytes; an integer (2)
/// of (data % 8) + 1 bytes, signed when data is 8 or more; a char array (4) of data + 1
/// bytes, or, when data is 8 or more, of (data % 4) * 256 + c + 9 bytes where c is the
/// next byte; a key (6, 7 when the array has a base part) of data + 1 bytes into the
/// key store given by the next byte; a variant id (8) of one byte.
pub open spec fn spec_old_raw_property(s: Seq<u8>, pos: int) -> Result<(RawProperty, int), Error> {
    if !in_bounds(s, pos, 1) {
        Err(Error::UnexpectedEnd)
    } else {
        let t = s[pos] / 16;
        let d = s[pos] % 16;
        if t == 0 {
            Ok((RawProperty { size: (d + 1) as usize, kind: RawPropertyKind::Padding }, pos + 1))
        } else if t == 1 {
            Ok((RawProperty { size: ((d + 1) * 4) as usize, kind: RawPropertyKind::ContentAddress(d) }, pos + 1))
        } else if t == 2 {
            Ok(
                (
                    RawProperty {
                        size: (d % 8 + 1) as usize,
                        kind: if d >= 8 {
                            RawPropertyKind::SignedInt
                        } else {
                            RawPropertyKind::UnsignedInt
                        },
                    },
                    pos + 1,
                ),
            )
        } else if t == 4 {
            if d < 8 {
                Ok((RawProperty { size: (d + 1) as usize, kind: RawPropertyKind::CharArray }, pos + 1))
            } else if !in_bounds(s, pos + 1, 1) {
                Err(Error::UnexpectedEnd)
            } else {
                Ok(
                    (
                        RawProperty { size: ((d % 4) * 256 + s[pos + 1] + 9) as usize, kind: RawPropertyKind::CharArray },
                        pos + 2,
                    ),
                )
            }
        } else if t == 6 || t == 7 {
            if !in_bounds(s, pos + 1, 1) {
                Err(Error::UnexpectedEnd)
            } else {
                Ok(
                    (
                        RawProperty { size: (d + 1) as usize, kind: RawPropertyKind::PString(t == 7, s[pos + 1]) },
                        pos + 2,
                    ),
                )
            }
        } else if t == 8 {
            Ok((RawProperty { size: 1, kind: RawPropertyKind::VariantId }, pos + 1))
        } else {
            Err(Error::InvalidFormat)
        }
    }
}

impl RawProperty {
    /// Reads the property definition stored at `pos`; returns it with the position after it.
    pub fn produce(buf: &[u8], pos: usize) -> (r: Result<(RawProperty, usize), Error>)
        ensures
            match spec_old_raw_property(buf@, pos as int) {
                Ok((p, end)) => r == Ok::<(RawProperty, usize), Error>((p, end as usize)) && end <= buf@.len(),
                Err(e) => r == Err::<(RawProperty, usize), Error>(e),
            },
            r matches Ok((p, _)) ==> p.size <= 1032,
    {
        let blen = buf.len();
        if pos >= blen {
            return Err(Error::UnexpectedEnd);
        }
        let b = buf[pos];
        let t = b / 16;
        let d = b % 16;
        if t == 0 {
            Ok((RawProperty { size: (d + 1) as usize, kind: RawPropertyKind::Padding }, pos + 1))
        } else if t == 1 {
            Ok((RawProperty { size: ((d as usize) + 1) * 4, kind: RawPropertyKind::ContentAddress(d) }, pos + 1))
        } else if t == 2 {
            let kind = if d >= 8 {
                RawPropertyKind::SignedInt
            } else {
                RawPropertyKind::UnsignedInt
            };
            Ok((RawProperty { size: (d % 8 + 1) as usize, kind }, pos + 1))
        } else if t == 4 {
            if d < 8 {
                Ok((RawProperty { size: (d + 1) as usize, kind: RawPropertyKind::CharArray }, pos + 1))
            } else if pos + 1 >= blen {
                Err(Error::UnexpectedEnd)
            } else {
                let c = buf[pos + 1] as usize;
                Ok((RawProperty { size: ((d % 4) as usize) * 256 + c + 9, kind: RawPropertyKind::CharArray }, pos + 2))
            }
        } else if t == 6 || t == 7 {
            if pos + 1 >= blen {
                Err(Error::UnexpectedEnd)
            } else {
                Ok((RawProperty { size: (d + 1) as usize, kind: RawPropertyKind::PString(t == 7, buf[pos + 1]) }, pos + 2))
            }
        } else if t == 8 {
            Ok((RawProperty { size: 1, kind: RawPropertyKind::VariantId }, pos + 1))
        } else {
            Err(Error::InvalidFormat)
        }
    }
}

} // verus!
