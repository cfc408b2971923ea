//! Key stores: where the continuations of the arrays of an index store lie.
use crate::bases::in_bounds;
use crate::error::Error;
use crate::ints::{be_value, lemma_be_value_bound, lemma_pow256_values};
use crate::primitive::{read_be_at, spec_be_at};
use vstd::prelude::*;
use vstd::slice::{slice_subrange, slice_to_vec};

verus! {

/// A key store whose keys are offsets in its data, each key's bytes being a
/// length-prefixed string.
#[derive(Debug)]
pub struct PlainKeyStore {
    data: Vec<u8>,
}

/// A key store whose keys are indexes, each key's bytes lying between its offset and
/// the next one.
#[derive(Debug)]
pub struct IndexedKeyStore {
    entry_offsets: Vec<u64>,
    data: Vec<u8>,
}

/// A key store.
#[derive(Debug)]
pub enum KeyStore {
    Plain(PlainKeyStore),
    Indexed(IndexedKeyStore),
}

/// The mathematical content of a [KeyStore].
pub enum KeyStoreV {
    Plain(Seq<u8>),
    Indexed(Seq<u64>, Seq<u8>),
}

impl View for KeyStore {
    type V = KeyStoreV;

    closed spec fn view(&self) -> KeyStoreV {
        match self {
            KeyStore::Plain(p) => KeyStoreV::Plain(p.data@),
            KeyStore::Indexed(i) => KeyStoreV::Indexed(i.entry_offsets@, i.data@),
        }
    }
}

/// The bytes of key `id`.
pub open spec fn spec_key_data(v: KeyStoreV, id: u64) -> Result<Seq<u8>, Error> {
    match v {
        KeyStoreV::Plain(data) => if !in_bounds(data, id as int, 1) {
            Err(Error::UnexpectedEnd)
        } else if !in_bounds(data, id + 1, data[id as int] as int) {
            Err(Error::UnexpectedEnd)
        } else {
            Ok(data.subrange(id + 1, id + 1 + data[id as int]))
        },
        KeyStoreV::Indexed(offsets, data) => if id + 1 >= offsets.len() {
            Err(Error::Arg)
        } else {
            let start = offsets[id as int];
            let end = offsets[id + 1];
            if end < start {
                Err(Error::InvalidFormat)
            } else if end > data.len() {
                Err(Error::UnexpectedEnd)
            } else {
                Ok(data.subrange(start as int, end as int))
            }
        },
    }
}

/// The key offsets of an indexed key store, from `pos` on: the first key starts at 0
/// and its offset is not stored; the others are, on `osz` bytes each, and lie within
/// the data.
pub open spec fn spec_key_offsets(s: Seq<u8>, pos: int, i: nat, osz: nat, data_size: u64) -> Result<Seq<u64>, Error>
    decreases i,
{
    if i == 0 {
        Ok(Seq::empty())
    } else {
        match spec_key_offsets(s, pos, (i - 1) as nat, osz, data_size) {
            Err(e) => Err(e),
            Ok(offs) => if i == 1 {
                Ok(offs.push(0))
            } else {
                match spec_be_at(s, pos + (i - 2) * osz, osz) {
                    Err(e) => Err(e),
                    Ok(v) => if v > data_size {
                        Err(Error::InvalidFormat)
                    } else {
                        Ok(offs.push(v))
                    },
                }
            },
        }
    }
}

proof fn lemma_key_offsets_err(s: Seq<u8>, pos: int, i: nat, n: nat, osz: nat, data_size: u64)
    requires
        i <= n,
        spec_key_offsets(s, pos, i, osz, data_size) is Err,
    ensures
        spec_key_offsets(s, pos, n, osz, data_size) == spec_key_offsets(s, pos, i, osz, data_size),
    decreases n - i,
{
    if i < n {
        lemma_key_offsets_err(s, pos, i, (n - 1) as nat, osz, data_size);
    }
}

/// The key store whose header lies in the `size` bytes at `offset` of `s`. The header
/// holds the kind (0 plain, 1 indexed), then, for a plain store, the data size on 8
/// bytes; for an indexed store, the key count on 8 bytes, the offset size, the data size
/// and the key offsets, which fill the header exactly. The data lies just before the
/// header.
pub open spec fn spec_key_store(s: Seq<u8>, offset: int, size: int) -> Result<KeyStoreV, Error> {
    if !in_bounds(s, offset, size) {
        Err(Error::UnexpectedEnd)
    } else {
        let h = s.subrange(offset, offset + size);
        if !in_bounds(h, 0, 1) {
            Err(Error::UnexpectedEnd)
        } else if h[0] == 0 {
            match spec_be_at(h, 1, 8) {
                Err(e) => Err(e),
                Ok(data_size) => if offset < data_size {
                    Err(Error::InvalidFormat)
                } else {
                    Ok(KeyStoreV::Plain(s.subrange(offset - data_size, offset)))
                },
            }
        } else if h[0] == 1 {
            match spec_be_at(h, 1, 8) {
                Err(e) => Err(e),
                Ok(count) => if !in_bounds(h, 9, 1) {
                    Err(Error::UnexpectedEnd)
                } else {
                    let osz = h[9] as nat;
                    if osz > 8 {
                        Err(Error::InvalidFormat)
                    } else {
                        match spec_be_at(h, 10, osz) {
                            Err(e) => Err(e),
                            Ok(data_size) => match spec_key_offsets(h, 10 + osz as int, count as nat, osz, data_size) {
                                Err(e) => Err(e),
                                Ok(offs) => if (if count == 0 { 10 + osz as int } else { 10 + osz * count }) != size {
                                    Err(Error::InvalidFormat)
                                } else if offset < data_size {
                                    Err(Error::InvalidFormat)
                                } else {
                                    Ok(KeyStoreV::Indexed(offs.push(data_size), s.subrange(offset - data_size, offset)))
                                },
                            },
                        }
                    }
                },
            }
        } else {
            Err(Error::InvalidFormat)
        }
    }
}

impl KeyStore {
    /// Reads the key store whose header lies in the `size` bytes at `offset`.
    pub fn new(buf: &[u8], offset: usize, size: usize) -> (r: Result<KeyStore, Error>)
        ensures
            match spec_key_store(buf@, offset as int, size as int) {
                Ok(v) => (r matches Ok(ks) && ks@ == v),
                Err(e) => r matches Err(re) && re == e,
            },
    {
        let blen = buf.len();
        if !(size <= blen && offset <= blen - size) {
            return Err(Error::UnexpectedEnd);
        }
        let h = slice_subrange(buf, offset, offset + size);
        if h.len() < 1 {
            return Err(Error::UnexpectedEnd);
        }
        let kind = h[0];
        if kind == 0 {
            let data_size = read_be_at(h, 1, 8)?;
            if (offset as u64) < data_size {
                return Err(Error::InvalidFormat);
            }
            let start = offset - data_size as usize;
            let data = slice_to_vec(slice_subrange(buf, start, offset));
            Ok(KeyStore::Plain(PlainKeyStore { data }))
        } else if kind == 1 {
            let count = read_be_at(h, 1, 8)?;
            if h.len() < 10 {
                return Err(Error::UnexpectedEnd);
            }
            let osz = h[9] as usize;
            if osz > 8 {
                return Err(Error::InvalidFormat);
            }
            let data_size = read_be_at(h, 10, osz)?;
            let start = 10 + osz;
            let hlen = h.len();
            let mut offsets: Vec<u64> = Vec::new();
            let mut i: u64 = 0;
            let mut q: usize = start;
            assert(spec_key_offsets(h@, start as int, 0, osz as nat, data_size) == Ok::<Seq<u64>, Error>(offsets@));
            while i < count
                invariant
                    hlen == h@.len(),
                    osz <= 8,
                    start == 10 + osz,
                    start <= hlen,
                    i <= count,
                    i > 0 ==> q == start + (i - 1) * osz,
                    i == 0 ==> q == start,
                    q <= hlen,
                    h@ == buf@.subrange(offset as int, offset + size),
                    h@[0] == 1,
                    h@[9] == osz,
                    spec_be_at(h@, 1, 8) == Ok::<u64, Error>(count),
                    spec_be_at(h@, 10, osz as nat) == Ok::<u64, Error>(data_size),
                    in_bounds(buf@, offset as int, size as int),
                    spec_key_offsets(h@, start as int, i as nat, osz as nat, data_size) == Ok::<Seq<u64>, Error>(offsets@),
                decreases count - i,
            {
                if i == 0 {
                    offsets.push(0);
                    assert(q == start + (i + 1 - 1) * osz) by (nonlinear_arith)
                        requires
                            q == start,
                            i == 0,
                    ;
                } else {
                    let v = match read_be_at(h, q, osz) {
                        Ok(v) => v,
                        Err(e) => {
                            proof {
                                lemma_key_offsets_err(h@, start as int, (i + 1) as nat, count as nat, osz as nat, data_size);
                            }
                            return Err(e);
                        },
                    };
                    if v > data_size {
                        proof {
                            lemma_key_offsets_err(h@, start as int, (i + 1) as nat, count as nat, osz as nat, data_size);
                        }
                        return Err(Error::InvalidFormat);
                    }
                    offsets.push(v);
                    let ghost q0 = q;
                    q = q + osz;
                    assert(q == start + (i + 1 - 1) * osz) by (nonlinear_arith)
                        requires
                            q0 == start + (i - 1) * osz,
                            q == q0 + osz,
                    ;
                }
                i = i + 1;
            }
            let ghost expected: int = if count == 0 { 10 + osz } else { 10 + osz * count };
            assert(q == expected) by (nonlinear_arith)
                requires
                    count == 0 ==> q == start,
                    count > 0 ==> q == start + (count - 1) * osz,
                    start == 10 + osz,
                    expected == (if count == 0 { 10 + osz } else { 10 + osz * count }),
            ;
            if q != size {
                return Err(Error::InvalidFormat);
            }
            if (offset as u64) < data_size {
                return Err(Error::InvalidFormat);
            }
            offsets.push(data_size);
            let dstart = offset - data_size as usize;
            let data = slice_to_vec(slice_subrange(buf, dstart, offset));
            Ok(KeyStore::Indexed(IndexedKeyStore { entry_offsets: offsets, data }))
        } else {
            Err(Error::InvalidFormat)
        }
    }

    /// The data of the store.
    pub fn data(&self) -> (r: &[u8])
        ensures
            r@ == match self@ {
                KeyStoreV::Plain(d) => d,
                KeyStoreV::Indexed(_, d) => d,
            },
    {
        match self {
            KeyStore::Plain(s) => s.data.as_slice(),
            KeyStore::Indexed(s) => s.data.as_slice(),
        }
    }

    /// The key offsets, followed by the data size, for an indexed store.
    pub fn entry_offsets(&self) -> (r: Option<&Vec<u64>>)
        ensures
            match self@ {
                KeyStoreV::Plain(_) => r is None,
                KeyStoreV::Indexed(o, _) => (r matches Some(v) && v@ == o),
            },
    {
        match self {
            KeyStore::Plain(_) => None,
            KeyStore::Indexed(s) => Some(&s.entry_offsets),
        }
    }

    /// The bytes of key `id`.
    pub fn get_data(&self, id: u64) -> (r: Result<Vec<u8>, Error>)
        ensures
            match spec_key_data(self@, id) {
                Ok(d) => (r matches Ok(v) && v@ == d),
                Err(e) => r matches Err(re) && re == e,
            },
    {
        match self {
            KeyStore::Plain(store) => {
                let len = store.data.len();
                if id >= len as u64 {
                    return Err(Error::UnexpectedEnd);
                }
                let p = id as usize;
                let n = store.data[p] as usize;
                if n > len - (p + 1) {
                    return Err(Error::UnexpectedEnd);
                }
                Ok(slice_to_vec(slice_subrange(store.data.as_slice(), p + 1, p + 1 + n)))
            },
            KeyStore::Indexed(store) => {
                let count = store.entry_offsets.len();
                if id >= count as u64 || id + 1 >= count as u64 {
                    return Err(Error::Arg);
                }
                let i = id as usize;
                let start = store.entry_offsets[i];
                let end = store.entry_offsets[i + 1];
                if end < start {
                    return Err(Error::InvalidFormat);
                }
                if end > store.data.len() as u64 {
                    return Err(Error::UnexpectedEnd);
                }
                Ok(slice_to_vec(slice_subrange(store.data.as_slice(), start as usize, end as usize)))
            },
        }
    }
}

} // verus!
