//! Comparing the values of entries with reference values.
use super::raw_value::{
    array_fetchable, array_head, array_bytes, array_tail, lemma_tails_agree, is_signed, is_unsigned, lazy_tail, spec_resolve, Array, ArrayV,
    RawValueV,
    RawValue, Value, ValueV,
};
use super::lex::{diff_byte_below, first_diff, lemma_first_diff, lemma_first_diff_at, lemma_first_diff_at_least, lemma_first_diff_prefix};
use crate::error::Error;
use std::cmp::Ordering;
use vstd::prelude::*;

verus! {

/// The lexicographic order of byte strings.
pub open spec fn lexcmp(a: Seq<u8>, o: Seq<u8>) -> Ordering {
    if first_diff(a, o) == a.len() && first_diff(a, o) == o.len() {
        Ordering::Equal
    } else if first_diff(a, o) == a.len() {
        Ordering::Less
    } else if first_diff(a, o) == o.len() {
        Ordering::Greater
    } else if diff_byte_below(a, o) {
        Ordering::Less
    } else {
        Ordering::Greater
    }
}

/// The order of two unsigned integers.
pub open spec fn unsigned_order(a: u64, b: u64) -> Ordering {
    if a < b {
        Ordering::Less
    } else if a == b {
        Ordering::Equal
    } else {
        Ordering::Greater
    }
}

/// The order of two signed integers.
pub open spec fn signed_order(a: i64, b: i64) -> Ordering {
    if a < b {
        Ordering::Less
    } else if a == b {
        Ordering::Equal
    } else {
        Ordering::Greater
    }
}

/// The comparison of the array `a` with `o`, fetching the deported part only when the
/// base part does not decide it before its last byte.
pub open spec fn array_order(a: ArrayV, o: Seq<u8>) -> Result<Ordering, Error> {
    let h = array_head(a);
    if h.len() > 0 && first_diff(h, o) < h.len() - 1 {
        Ok(lexcmp(h, o))
    } else {
        match lazy_tail(a) {
            Err(e) => Err(e),
            Ok(t) => Ok(lexcmp(h + t, o)),
        }
    }
}

fn byte_order(a: u8, b: u8) -> (r: Ordering)
    ensures
        r == (if a < b {
            Ordering::Less
        } else {
            Ordering::Greater
        }),
{
    if a < b {
        Ordering::Less
    } else {
        Ordering::Greater
    }
}

fn u64_order(a: u64, b: u64) -> (r: Ordering)
    ensures
        r == unsigned_order(a, b),
        (r == Ordering::Less) == (a < b),
        (r == Ordering::Equal) == (a == b),
        (r == Ordering::Greater) == (a > b),
{
    if a < b {
        Ordering::Less
    } else if a == b {
        Ordering::Equal
    } else {
        Ordering::Greater
    }
}

fn i64_order(a: i64, b: i64) -> (r: Ordering)
    ensures
        r == signed_order(a, b),
        (r == Ordering::Less) == (a < b),
        (r == Ordering::Equal) == (a == b),
        (r == Ordering::Greater) == (a > b),
{
    if a < b {
        Ordering::Less
    } else if a == b {
        Ordering::Equal
    } else {
        Ordering::Greater
    }
}

/// Whether comparing the array `a` with `o` can be done: either the base part decides,
/// or the deported part can be fetched.
pub open spec fn array_cmp_ok(a: ArrayV, o: Seq<u8>) -> bool {
    let h = array_head(a);
    (h.len() > 0 && first_diff(h, o) < h.len() - 1) || array_fetchable(a)
}

/// Whether comparing the raw value with the reference value can be done: only an array
/// compared with an array may fetch a deported part.
pub open spec fn order_defined(r: RawValueV, v: ValueV) -> bool {
    match v {
        ValueV::Array(x) => match r {
            RawValueV::Array(a) => array_cmp_ok(a, x),
            _ => true,
        },
        _ => true,
    }
}

impl Array {
    /// Compares the bytes of the array with `other`, lexicographically.
    ///
    /// The deported part is fetched only when the base part does not decide.
    pub fn cmp(&self, other: &[u8]) -> (r: Result<Ordering, Error>)
        requires
            array_cmp_ok(self@, other@),
        ensures
            r == array_order(self@, other@),
            r is Ok && array_bytes(self@) is Ok ==> r.unwrap() == lexcmp(array_bytes(self@).unwrap(), other@),
    {
        let ghost o = other@;
        let ghost h = array_head(self@);
        let hlen = self.head_len();
        let olen = other.len();
        let mut i: usize = 0;
        while i + 1 < hlen
            invariant
                hlen == h.len(),
                hlen <= 31,
                h == array_head(self@),
                olen == o.len(),
                o == other@,
                i <= hlen,
                i <= olen,
                forall|j: int| 0 <= j < i ==> h[j] == o[j],
            decreases hlen - i,
        {
            if i >= olen {
                proof {
                    lemma_first_diff_at(h, o, i);
                    if array_bytes(self@) is Ok {
                        lemma_first_diff_prefix(h, array_tail(self@).unwrap(), o);
                    }
                }
                return Ok(Ordering::Greater);
            }
            let b = self.head_byte(i);
            let c = other[i];
            if b != c {
                proof {
                    lemma_first_diff_at(h, o, i);
                    if array_bytes(self@) is Ok {
                        lemma_first_diff_prefix(h, array_tail(self@).unwrap(), o);
                    }
                }
                return Ok(byte_order(b, c));
            }
            i = i + 1;
        }
        proof {
            lemma_first_diff_at_least(h, o, i);
        }
        let tail = match self.lazy_tail() {
            Ok(t) => t,
            Err(e) => return Err(e),
        };
        let ghost t = lazy_tail(self@).unwrap();
        proof {
            if array_bytes(self@) is Ok {
                lemma_tails_agree(self@);
            }
        }
        let ghost full = h + t;
        let mut k: usize = i;
        while k < hlen
            invariant
                hlen == h.len(),
                h == array_head(self@),
                full == h + t,
                lazy_tail(self@) == Ok::<Seq<u8>, Error>(t),
                array_bytes(self@) is Ok ==> array_tail(self@) == Ok::<Seq<u8>, Error>(t),
                !(hlen > 0 && first_diff(h, o) < hlen - 1),
                olen == o.len(),
                o == other@,
                k <= hlen,
                k <= olen,
                forall|j: int| 0 <= j < k ==> full[j] == o[j],
            decreases hlen - k,
        {
            if k >= olen {
                proof {
                    lemma_first_diff_at(full, o, k);
                }
                return Ok(Ordering::Greater);
            }
            let b = self.head_byte(k);
            let c = other[k];
            if b != c {
                proof {
                    lemma_first_diff_at(full, o, k);
                }
                return Ok(byte_order(b, c));
            }
            k = k + 1;
        }
        let rest = olen - hlen;
        let mut m: usize = 0;
        match tail {
            None => {},
            Some(d) => {
                while m < d.len()
                    invariant
                        hlen == h.len(),
                        h == array_head(self@),
                        full == h + t,
                        d@ == t,
                        lazy_tail(self@) == Ok::<Seq<u8>, Error>(t),
                        array_bytes(self@) is Ok ==> array_tail(self@) == Ok::<Seq<u8>, Error>(t),
                        !(hlen > 0 && first_diff(h, o) < hlen - 1),
                        olen == o.len(),
                        o == other@,
                        rest == olen - hlen,
                        hlen <= olen,
                        m <= d.len(),
                        m <= rest,
                        forall|j: int| 0 <= j < hlen + m ==> full[j] == o[j],
                    decreases d.len() - m,
                {
                    if m >= rest {
                        proof {
                            lemma_first_diff(full, o, hlen + m);
                        }
                        return Ok(Ordering::Greater);
                    }
                    let b = d[m];
                    let c = other[hlen + m];
                    if b != c {
                        proof {
                            lemma_first_diff(full, o, hlen + m);
                        }
                        return Ok(byte_order(b, c));
                    }
                    m = m + 1;
                }
            },
        }
        proof {
            lemma_first_diff(full, o, hlen + m);
        }
        if m < rest {
            Ok(Ordering::Less)
        } else {
            Ok(Ordering::Equal)
        }
    }
}

/// The comparison of a raw value with a reference value; `None` when their kinds differ.
pub open spec fn value_order(r: RawValueV, v: ValueV) -> Result<Option<Ordering>, Error> {
    match v {
        ValueV::Content(_) => Ok(None),
        ValueV::Unsigned(x) => if is_unsigned(r) {
            match spec_resolve(r) {
                Ok(ValueV::Unsigned(y)) => Ok(Some(unsigned_order(y, x))),
                _ => Ok(None),
            }
        } else {
            Ok(None)
        },
        ValueV::Signed(x) => if is_signed(r) {
            match spec_resolve(r) {
                Ok(ValueV::Signed(y)) => Ok(Some(signed_order(y, x))),
                _ => Ok(None),
            }
        } else {
            Ok(None)
        },
        ValueV::Array(x) => match r {
            RawValueV::Array(a) => match array_order(a, x) {
                Err(e) => Err(e),
                Ok(c) => Ok(Some(c)),
            },
            _ => Ok(None),
        },
    }
}

impl RawValue {
    /// Compares the value with `other`; `None` when they are of different kinds.
    pub fn partial_cmp(&self, other: &Value) -> (r: Result<Option<Ordering>, Error>)
        requires
            order_defined(self@, other@),
        ensures
            r == value_order(self@, other@),
            match other@ {
                ValueV::Signed(x) => is_signed(self@) ==> (r matches Ok(Some(o)) && (o == Ordering::Less) == (int_of(
                    self@,
                ) < x) && (o == Ordering::Equal) == (int_of(self@) == x) && (o == Ordering::Greater) == (int_of(
                    self@,
                ) > x)),
                ValueV::Unsigned(x) => is_unsigned(self@) ==> (r matches Ok(Some(o)) && (o == Ordering::Less) == (
                int_of(self@) < x) && (o == Ordering::Equal) == (int_of(self@) == x) && (o == Ordering::Greater) == (
                int_of(self@) > x)),
                _ => true,
            },
    {
        proof {
            match other@ {
                ValueV::Signed(x) => if is_signed(self@) {
                    lemma_signed_compare(self@, x);
                },
                ValueV::Unsigned(x) => if is_unsigned(self@) {
                    lemma_unsigned_compare(self@, x);
                },
                _ => {},
            }
        }
        match other {
            Value::Content(_) => Ok(None),
            Value::Unsigned(x) => match self.unsigned_value() {
                Some(y) => Ok(Some(u64_order(y, *x))),
                None => Ok(None),
            },
            Value::Signed(x) => match self.signed_value() {
                Some(y) => Ok(Some(i64_order(y, *x))),
                None => Ok(None),
            },
            Value::Array(x) => match self {
                RawValue::Array(a) => {
                    match a.cmp(x.as_slice()) {
                        Ok(c) => Ok(Some(c)),
                        Err(e) => Err(e),
                    }
                },
                _ => Ok(None),
            },
        }
    }
}

/// The integer that a raw integer value holds (0 for other values).
pub open spec fn int_of(r: RawValueV) -> int {
    match r {
        RawValueV::U8(v) => v as int,
        RawValueV::U16(v) => v as int,
        RawValueV::U32(v) => v as int,
        RawValueV::U64(v) => v as int,
        RawValueV::I8(v) => v as int,
        RawValueV::I16(v) => v as int,
        RawValueV::I32(v) => v as int,
        RawValueV::I64(v) => v as int,
        _ => 0,
    }
}

/// A signed entry value compared with a signed reference is ordered as integers are:
/// less exactly when its integer is smaller, equal exactly when they are the same,
/// greater exactly when it is larger, whatever their signs and widths.
pub proof fn lemma_signed_compare(r: RawValueV, x: i64)
    requires
        is_signed(r),
    ensures
        value_order(r, ValueV::Signed(x)) matches Ok(Some(o)) && (o == Ordering::Less) == (int_of(r) < x) && (o
            == Ordering::Equal) == (int_of(r) == x) && (o == Ordering::Greater) == (int_of(r) > x),
{
}

/// An unsigned entry value compared with an unsigned reference is ordered as integers
/// are: less exactly when its integer is smaller, equal exactly when they are the same,
/// greater exactly when it is larger, whatever their widths.
pub proof fn lemma_unsigned_compare(r: RawValueV, x: u64)
    requires
        is_unsigned(r),
    ensures
        value_order(r, ValueV::Unsigned(x)) matches Ok(Some(o)) && (o == Ordering::Less) == (int_of(r) < x) && (o
            == Ordering::Equal) == (int_of(r) == x) && (o == Ordering::Greater) == (int_of(r) > x),
{
}

} // verus!
