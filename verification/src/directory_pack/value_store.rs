//! Value stores: the places where deported values (array tails, deported integers) live.
use crate::bases::{in_bounds, read_u8_at, read_uint_at, spec_u8_at, spec_uint_at, ByteSize};
use crate::error::Error;
use std::sync::Arc;
use vstd::prelude::*;
use vstd::slice::{slice_subrange, slice_to_vec};

verus! {

/// A value store whose values are found by their offset in its data.
#[derive(Debug)]
pub struct PlainValueStore {
    data: Vec<u8>,
}

/// A value store whose values are found by their index.
#[derive(Debug)]
pub struct IndexedValueStore {
    value_offsets: Vec<u64>,
    data: Vec<u8>,
}

/// A value store.
#[derive(Debug)]
pub enum ValueStore {
    Plain(PlainValueStore),
    Indexed(IndexedValueStore),
}

/// The mathematical content of a [ValueStore].
pub enum ValueStoreV {
    /// The data.
    Plain(Seq<u8>),
    /// The start offset of each value (followed by the data size), and the data.
    Indexed(Seq<u64>, Seq<u8>),
}

impl View for ValueStore {
    type V = ValueStoreV;

    closed spec fn view(&self) -> ValueStoreV {
        match self {
            ValueStore::Plain(p) => ValueStoreV::Plain(p.data@),
            ValueStore::Indexed(i) => ValueStoreV::Indexed(i.value_offsets@, i.data@),
        }
    }
}

/// The bytes that `get_data(id, size)` gives on the store `v`.
///
/// A plain store reads `size` bytes at offset `id`; it is never asked without a size
/// (see [data_request_ok]). An indexed store reads value `id`: from its offset, `size`
/// bytes or up to the next offset.
pub open spec fn spec_get_data(v: ValueStoreV, id: u64, size: Option<u64>) -> Result<Seq<u8>, Error> {
    match v {
        ValueStoreV::Plain(data) => {
            let n = size.unwrap();
            if in_bounds(data, id as int, n as int) {
                Ok(data.subrange(id as int, id + n))
            } else {
                Err(Error::UnexpectedEnd)
            }
        },
        ValueStoreV::Indexed(offsets, data) => if id + 1 >= offsets.len() {
            Err(Error::Arg)
        } else {
            let start = offsets[id as int];
            let n: int = match size {
                Some(n) => n as int,
                None => offsets[id + 1] - start,
            };
            if n < 0 {
                Err(Error::InvalidFormat)
            } else if in_bounds(data, start as int, n) {
                Ok(data.subrange(start as int, start + n))
            } else {
                Err(Error::UnexpectedEnd)
            }
        },
    }
}

/// Whether the store can be asked for data of that size: a plain store only knows
/// where a value ends when it is given its size.
pub open spec fn data_request_ok(v: ValueStoreV, size: Option<u64>) -> bool {
    !(v is Plain && size is None)
}

impl ValueStore {
    /// The data of the store.
    pub fn data(&self) -> (r: &[u8])
        ensures
            r@ == match self@ {
                ValueStoreV::Plain(d) => d,
                ValueStoreV::Indexed(_, d) => d,
            },
    {
        match self {
            ValueStore::Plain(s) => s.data.as_slice(),
            ValueStore::Indexed(s) => s.data.as_slice(),
        }
    }

    /// The start offset of each value, followed by the data size, for an indexed store.
    pub fn value_offsets(&self) -> (r: Option<&Vec<u64>>)
        ensures
            match self@ {
                ValueStoreV::Plain(_) => r is None,
                ValueStoreV::Indexed(o, _) => (r matches Some(v) && v@ == o),
            },
    {
        match self {
            ValueStore::Plain(_) => None,
            ValueStore::Indexed(s) => Some(&s.value_offsets),
        }
    }

    /// The bytes of the value `id`; `size` bytes of it, or all of it when `size` is `None`.
    pub fn get_data(&self, id: u64, size: Option<u64>) -> (r: Result<&[u8], Error>)
        requires
            data_request_ok(self@, size),
        ensures
            match spec_get_data(self@, id, size) {
                Ok(d) => (r matches Ok(s) && s@ == d),
                Err(e) => r == Err::<&[u8], Error>(e),
            },
    {
        match self {
            ValueStore::Plain(store) => match size {
                None => vstd::pervasive::unreached(),
                Some(n) => {
                    let len = store.data.len();
                    if (id as u128) + (n as u128) <= (len as u128) {
                        let start = id as usize;
                        Ok(slice_subrange(store.data.as_slice(), start, start + n as usize))
                    } else {
                        Err(Error::UnexpectedEnd)
                    }
                },
            },
            ValueStore::Indexed(store) => {
                let count = store.value_offsets.len();
                if (id as u128) + 1 >= (count as u128) {
                    return Err(Error::Arg);
                }
                let idx = id as usize;
                let start = store.value_offsets[idx];
                let n: u64 = match size {
                    Some(n) => n,
                    None => {
                        let next = store.value_offsets[idx + 1];
                        if next < start {
                            return Err(Error::InvalidFormat);
                        }
                        next - start
                    },
                };
                let len = store.data.len();
                if (start as u128) + (n as u128) <= (len as u128) {
                    let s = start as usize;
                    Ok(slice_subrange(store.data.as_slice(), s, s + n as usize))
                } else {
                    Err(Error::UnexpectedEnd)
                }
            },
        }
    }
}

/// What the header of a value store describes, before its data is attached.
pub enum ValueStoreBuilder {
    Plain,
    Indexed(Vec<u64>),
}

/// The `count` value offsets stored at `p` with `osize` bytes each, the first one
/// being implicit (0); each one must lie within `data_size`. Then `data_size` is appended.
pub open spec fn spec_value_offsets(s: Seq<u8>, p: int, count: nat, osize: nat, data_size: u64) -> Result<
    (Seq<u64>, int),
    Error,
>
    decreases count,
{
    if count == 0 {
        Ok((Seq::empty(), p))
    } else if count == 1 {
        Ok((seq![0u64], p))
    } else {
        match spec_value_offsets(s, p, (count - 1) as nat, osize, data_size) {
            Err(e) => Err(e),
            Ok((offs, q)) => match spec_uint_at(s, q, osize) {
                Err(e) => Err(e),
                Ok(v) => if v > data_size {
                    Err(Error::InvalidFormat)
                } else {
                    Ok((offs.push(v), q + osize))
                },
            },
        }
    }
}

/// The header of a value store at `pos`: the kind, then for a plain store the data size
/// (8 bytes), for an indexed store the value count (8 bytes), the offset size (1 byte),
/// the data size and the offsets of all values but the first.
/// Gives the offsets (indexed store), the data size and the position after the header.
pub open spec fn spec_value_store_header(s: Seq<u8>, pos: int) -> Result<
    (Option<Seq<u64>>, u64, int),
    Error,
> {
    match spec_u8_at(s, pos) {
        Err(e) => Err(e),
        Ok(kind) => if kind == 0 {
            match spec_uint_at(s, pos + 1, 8) {
                Err(e) => Err(e),
                Ok(data_size) => Ok((None, data_size, pos + 9)),
            }
        } else if kind == 1 {
            match spec_uint_at(s, pos + 1, 8) {
                Err(e) => Err(e),
                Ok(count) => match spec_u8_at(s, pos + 9) {
                    Err(e) => Err(e),
                    Ok(osize) => if osize < 1 || osize > 8 {
                        Err(Error::InvalidFormat)
                    } else {
                        match spec_uint_at(s, pos + 10, osize as nat) {
                            Err(e) => Err(e),
                            Ok(data_size) => match spec_value_offsets(
                                s,
                                pos + 10 + osize,
                                count as nat,
                                osize as nat,
                                data_size,
                            ) {
                                Err(e) => Err(e),
                                Ok((offs, end)) => Ok((Some(offs.push(data_size)), data_size, end)),
                            },
                        }
                    },
                },
            }
        } else {
            Err(Error::InvalidFormat)
        }
    }
}

/// Once reading the offsets fails, reading more of them fails the same way.
pub proof fn lemma_value_offsets_err(s: Seq<u8>, p: int, i: nat, n: nat, osize: nat, data_size: u64)
    requires
        i <= n,
        spec_value_offsets(s, p, i, osize, data_size) is Err,
    ensures
        spec_value_offsets(s, p, n, osize, data_size) == spec_value_offsets(s, p, i, osize, data_size),
    decreases n,
{
    if i < n {
        lemma_value_offsets_err(s, p, i, (n - 1) as nat, osize, data_size);
    }
}

impl ValueStoreBuilder {
    /// Parses the header of a value store; returns the builder, the data size and the
    /// position after the header.
    pub fn parse(buf: &[u8], pos: usize) -> (r: Result<(ValueStoreBuilder, u64, usize), Error>)
        ensures
            match spec_value_store_header(buf@, pos as int) {
                Ok((offs, size, end)) => (r matches Ok((b, rs, re)) && rs == size && re == end && match b {
                    ValueStoreBuilder::Plain => offs is None,
                    ValueStoreBuilder::Indexed(v) => offs == Some(v@),
                }),
                Err(e) => (r matches Err(re) && re == e),
            },
    {
        let blen = buf.len();
        let kind = read_u8_at(buf, pos)?;
        if kind == 0 {
            let data_size = read_uint_at(buf, pos + 1, 8)?;
            return Ok((ValueStoreBuilder::Plain, data_size, pos + 9));
        } else if kind != 1 {
            return Err(Error::InvalidFormat);
        }
        let count = read_uint_at(buf, pos + 1, 8)?;
        let osize = read_u8_at(buf, pos + 9)?;
        if osize < 1 || osize > 8 {
            return Err(Error::InvalidFormat);
        }
        let osz = osize as usize;
        let data_size = read_uint_at(buf, pos + 10, osz)?;
        let mut offsets: Vec<u64> = Vec::new();
        let mut q: usize = pos + 10 + osz;
        let mut i: u64 = 0;
        assert(forall|e: Error|
            spec_value_offsets(buf@, pos + 10 + osz, count as nat, osz as nat, data_size) == Err::<(Seq<u64>, int), Error>(e)
                ==> spec_value_store_header(buf@, pos as int) == Err::<(Option<Seq<u64>>, u64, int), Error>(e));
        while i < count
            invariant
                forall|e: Error|
                    spec_value_offsets(buf@, pos + 10 + osz, count as nat, osz as nat, data_size) == Err::<(Seq<u64>, int), Error>(e)
                        ==> spec_value_store_header(buf@, pos as int) == Err::<(Option<Seq<u64>>, u64, int), Error>(e),
                blen == buf@.len(),
                1 <= osz <= 8,
                i <= count,
                q <= blen,
                spec_value_offsets(buf@, pos + 10 + osz, i as nat, osz as nat, data_size) == Ok::<
                    (Seq<u64>, int),
                    Error,
                >((offsets@, q as int)),
            decreases count - i,
        {
            if i == 0 {
                offsets.push(0);
                assert(offsets@ =~= seq![0u64]);
            } else {
                let res = read_uint_at(buf, q, osz);
                match res {
                    Err(e) => {
                        proof {
                            lemma_value_offsets_err(buf@, pos + 10 + osz, (i + 1) as nat, count as nat, osz as nat, data_size);
                        }
                        return Err(e);
                    },
                    Ok(v) => {
                        if v > data_size {
                            proof {
                                lemma_value_offsets_err(buf@, pos + 10 + osz, (i + 1) as nat, count as nat, osz as nat, data_size);
                            }
                            return Err(Error::InvalidFormat);
                        }
                        offsets.push(v);
                        q = q + osz;
                    },
                }
            }
            i = i + 1;
        }
        offsets.push(data_size);
        Ok((ValueStoreBuilder::Indexed(offsets), data_size, q))
    }
}

/// The value store whose header lies in the `header_size` bytes at `header_offset`
/// of `buf`: its data of `data_size` bytes lies just before the header, followed by
/// a 4-byte checksum.
pub open spec fn spec_value_store(s: Seq<u8>, header_offset: int, header_size: int) -> Result<ValueStoreV, Error> {
    if !in_bounds(s, header_offset, header_size) {
        Err(Error::UnexpectedEnd)
    } else {
        match spec_value_store_header(s.subrange(header_offset, header_offset + header_size), 0) {
            Err(e) => Err(e),
            Ok((offs, data_size, end)) => if header_offset < data_size + 4 {
                Err(Error::InvalidFormat)
            } else {
                let start = header_offset - data_size - 4;
                let data = s.subrange(start, start + data_size);
                match offs {
                    None => Ok(ValueStoreV::Plain(data)),
                    Some(o) => Ok(ValueStoreV::Indexed(o, data)),
                }
            },
        }
    }
}

impl ValueStore {
    /// Reads the value store whose header lies in the `header_size` bytes at `header_offset`.
    pub fn parse(buf: &[u8], header_offset: usize, header_size: usize) -> (r: Result<ValueStore, Error>)
        ensures
            match spec_value_store(buf@, header_offset as int, header_size as int) {
                Ok(v) => (r matches Ok(vs) && vs@ == v),
                Err(e) => (r matches Err(re) && re == e),
            },
    {
        let blen = buf.len();
        if !(header_size <= blen && header_offset <= blen - header_size) {
            return Err(Error::UnexpectedEnd);
        }
        let header = slice_subrange(buf, header_offset, header_offset + header_size);
        let (builder, data_size, _end) = ValueStoreBuilder::parse(header, 0)?;
        if (header_offset as u128) < (data_size as u128) + 4 {
            return Err(Error::InvalidFormat);
        }
        let start = header_offset - data_size as usize - 4;
        let data = slice_to_vec(slice_subrange(buf, start, start + data_size as usize));
        Ok(
            match builder {
                ValueStoreBuilder::Plain => ValueStore::Plain(PlainValueStore { data }),
                ValueStoreBuilder::Indexed(value_offsets) => ValueStore::Indexed(
                    IndexedValueStore { value_offsets, data },
                ),
            },
        )
    }
}

/// A store of values, found by id.
pub trait ValueStoreTrait {
    /// What asking for `size` bytes (or all) of value `id` gives.
    spec fn data_of(&self, id: u64, size: Option<u64>) -> Result<Seq<u8>, Error>;

    /// Whether the store can be asked for data of that size.
    spec fn accepts(&self, size: Option<u64>) -> bool;

    /// The bytes of value `id`; `size` bytes of it, or all of it when `size` is `None`.
    fn get_data(&self, id: u64, size: Option<u64>) -> (r: Result<&[u8], Error>)
        requires
            self.accepts(size),
        ensures
            match self.data_of(id, size) {
                Ok(d) => (r matches Ok(s) && s@ == d),
                Err(e) => r == Err::<&[u8], Error>(e),
            },
    ;
}

impl ValueStoreTrait for ValueStore {
    open spec fn data_of(&self, id: u64, size: Option<u64>) -> Result<Seq<u8>, Error> {
        spec_get_data(self@, id, size)
    }

    open spec fn accepts(&self, size: Option<u64>) -> bool {
        data_request_ok(self@, size)
    }

    fn get_data(&self, id: u64, size: Option<u64>) -> (r: Result<&[u8], Error>) {
        ValueStore::get_data(self, id, size)
    }
}

/// Where the value stores of a directory pack are found, by index.
pub trait ValueStorageTrait {
    /// The value stores, in index order.
    spec fn stores(&self) -> Seq<ValueStoreV>;

    /// The value store of index `idx`; an error when there is no such store.
    fn get_value_store(&self, idx: u8) -> (r: Result<Arc<ValueStore>, Error>)
        ensures
            idx < self.stores().len() ==> (r matches Ok(s) && s@ == self.stores()[idx as int]),
            idx >= self.stores().len() ==> r == Err::<Arc<ValueStore>, Error>(Error::Arg),
    ;
}

/// The value stores of a directory pack, loaded.
pub struct ValueStorage {
    stores: Vec<Arc<ValueStore>>,
}

/// The views of a sequence of shared value stores.
pub open spec fn stores_view(v: Seq<Arc<ValueStore>>) -> Seq<ValueStoreV> {
    v.map_values(|s: Arc<ValueStore>| s@)
}

impl ValueStorage {
    pub fn new(stores: Vec<Arc<ValueStore>>) -> (r: ValueStorage)
        ensures
            r.stores() == stores_view(stores@),
    {
        ValueStorage { stores }
    }
}

impl ValueStorageTrait for ValueStorage {
    closed spec fn stores(&self) -> Seq<ValueStoreV> {
        stores_view(self.stores@)
    }

    fn get_value_store(&self, idx: u8) -> (r: Result<Arc<ValueStore>, Error>) {
        let i = idx as usize;
        if i < self.stores.len() {
            Ok(share_store(&self.stores[i]))
        } else {
            Err(Error::Arg)
        }
    }
}

/// A shared handle on the same value store.
#[verifier::external_body]
pub fn share_store(store: &Arc<ValueStore>) -> (r: Arc<ValueStore>)
    ensures
        r@ == store@,
{
    Arc::clone(store)
}

} // verus!
