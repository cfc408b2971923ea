use jubako::directory_pack::builder::AnyBuilder;
use jubako::directory_pack::directory::DirectoryPack;
use jubako::directory_pack::lazy_entry::EntryTrait;
use jubako::directory_pack::range::RangeTrait;
use jubako::directory_pack::raw_value::{RawValue, Value};
use jubako::directory_pack::value_store::ValueStorage;
use jubako::pack::PackKind;
use jubako::Error;
use std::sync::Arc;

#[test]
fn mod_test_directorypackheader() {
    let mut content = vec![
        0x6a, 0x62, 0x6b, 0x64, // magic
        0x00, 0x00, 0x00, 0x01, // app_vendor_id
        0x01, // major_version
        0x02, // minor_version
        0x00, 0x01, 0x02, 0x03, 0x04, 0x05, 0x06, 0x07, 0x08, 0x09, 0x0a, 0x0b, 0x0c, 0x0d, 0x0e, 0x0f, // uuid
        0x00, // flags
        0x00, 0x00, 0x00, 0x00, 0x00, // padding
        0xff, 0xff, 0x00, 0x00, 0x00, 0x00, 0x00, 0x00, // file_size
        0xee, 0xff, 0x00, 0x00, 0x00, 0x00, 0x00, 0x00, // check_info_pos
        0x00, 0x00, 0x00, 0x00, 0x00, 0x00, 0x00, 0x00, // reserved
        0x00, 0x00, 0x00, 0x00, 0x00, 0x00, 0x00, 0x00, // reserved
        0xdd, 0xee, 0x00, 0x00, 0x00, 0x00, 0x00, 0x00, // index_ptr_pos
        0x00, 0xee, 0x00, 0x00, 0x00, 0x00, 0x00, 0x00, // entry_store_ptr_pos
        0xaa, 0xee, 0x00, 0x00, 0x00, 0x00, 0x00, 0x00, // value_store_ptr_pos
        0x50, 0x00, 0x00, 0x00, // index count
        0x60, 0x00, 0x00, 0x00, // entry_store count
        0x05, //value_store count
    ];
    content.extend_from_slice(&[0xff; 31]);
    content.extend_from_slice(&[0x00, 4]); // Dummy CRC
    let pack = DirectoryPack::new(Arc::new(content)).unwrap();
    let base = pack.pack_base();
    assert_eq!(base.magic, PackKind::Directory);
    assert_eq!(base.app_vendor_id, [0, 0, 0, 1]);
    assert_eq!((base.major_version, base.minor_version), (1, 2));
    assert_eq!(
        base.uuid,
        [0x00, 0x01, 0x02, 0x03, 0x04, 0x05, 0x06, 0x07, 0x08, 0x09, 0x0a, 0x0b, 0x0c, 0x0d, 0x0e, 0x0f]
    );
    assert_eq!(base.file_size, 0xffff);
    assert_eq!(base.check_info_pos, 0xffee);
    assert_eq!(pack.index_ptr_pos(), 0xeedd);
    assert_eq!(pack.entry_store_ptr_pos(), 0xee00);
    assert_eq!(pack.value_store_ptr_pos(), 0xeeaa);
    assert_eq!(pack.index_count(), 0x50);
    assert_eq!(pack.entry_store_count(), 0x60);
    assert_eq!(pack.value_store_count(), 0x05);
    assert_eq!(pack.get_free_data(), [0xff; 24]);
}

fn sized_offset(size: usize, offset: usize) -> Vec<u8> {
    let mut v = (size as u16).to_le_bytes().to_vec();
    v.extend_from_slice(&(offset as u64).to_le_bytes()[..6]);
    v
}

fn index_header(store: u32, count: u32, offset: u32, name: &[u8]) -> Vec<u8> {
    let mut v = Vec::new();
    v.extend_from_slice(&store.to_le_bytes());
    v.extend_from_slice(&count.to_le_bytes());
    v.extend_from_slice(&offset.to_le_bytes());
    v.extend_from_slice(&[0, 0, 0, 0]); // free data
    v.push(0); // index property
    v.push(name.len() as u8);
    v.extend_from_slice(name);
    v
}

/// A directory pack with one value store ("Hello", "Foo"), one entry store of three
/// entries (an u8 "A" and a deported array "B") and two indexes.
fn directory_pack_bytes() -> Vec<u8> {
    let mut c = vec![
        0x6a, 0x62, 0x6b, 0x64, // magic
        0x00, 0x00, 0x00, 0x01, // app_vendor_id
        0x00, 0x01, // version
    ];
    c.extend_from_slice(&[0x42; 16]); // uuid
    c.extend_from_slice(&[0; 6]);
    c.extend_from_slice(&[0; 8]); // file_size, set below
    c.extend_from_slice(&[0; 8]); // check_info_pos, set below
    c.extend_from_slice(&[0; 16]);
    c.extend_from_slice(&[0; 24]); // pointer array positions, set below
    c.extend_from_slice(&2u32.to_le_bytes()); // index count
    c.extend_from_slice(&1u32.to_le_bytes()); // entry store count
    c.push(1); // value store count
    c.extend_from_slice(&[0xee; 24]); // free data
    c.extend_from_slice(&[0; 7 + 4]); // padding, CRC
    // Value store: data, CRC, header (plain, 8 bytes of data size).
    c.extend_from_slice(b"HelloFoo");
    c.extend_from_slice(&[0; 4]);
    let vs_header = c.len();
    c.push(0x00);
    c.extend_from_slice(&8u64.to_le_bytes());
    c.extend_from_slice(&[0; 4]);
    let vs_ptrs = c.len();
    c.extend(sized_offset(9, vs_header));
    c.extend_from_slice(&[0; 4]);
    // Entry store: three entries of 3 bytes (A: u8; B: its length on 1 byte, then its
    // key on 1 byte in the value store).
    c.extend_from_slice(&[0x07, 0x05, 0x00, 0x03, 0x05, 0x00, 0x05, 0x03, 0x05]);
    c.extend_from_slice(&[0; 4]);
    let es_header = c.len();
    c.extend_from_slice(&[
        0x00, // kind
        0x03, 0x00, 0x00, 0x00, // entry count
        0x00, // flag
        0x03, 0x00, // entry size
        0x00, // variant count
        0x02, // property count
        0b0010_0000, 1, b'A', // u8
        0b0101_0001, 0b001_00000, 0x00, 1, b'B', // char1[0] + deported(1), store 0
    ]);
    let es_size = c.len() - es_header;
    c.extend_from_slice(&[0; 4]);
    let es_ptrs = c.len();
    c.extend(sized_offset(es_size, es_header));
    c.extend_from_slice(&[0; 4]);
    // Two indexes.
    let idx0 = c.len();
    let h0 = index_header(0, 3, 0, b"all");
    c.extend_from_slice(&h0);
    let idx1 = c.len();
    let h1 = index_header(0, 2, 1, b"last two");
    c.extend_from_slice(&h1);
    let idx_ptrs = c.len();
    c.extend(sized_offset(h0.len(), idx0));
    c.extend(sized_offset(h1.len(), idx1));
    c.extend_from_slice(&[0; 4]);
    c[64..72].copy_from_slice(&(idx_ptrs as u64).to_le_bytes());
    c[72..80].copy_from_slice(&(es_ptrs as u64).to_le_bytes());
    c[80..88].copy_from_slice(&(vs_ptrs as u64).to_le_bytes());
    let check_pos = c.len();
    c[40..48].copy_from_slice(&(check_pos as u64).to_le_bytes());
    c[32..40].copy_from_slice(&(check_pos as u64 + 33).to_le_bytes());
    let hash = blake3::hash(&c);
    c.push(0x01);
    c.extend(hash.as_bytes());
    c
}

#[test]
fn directory_pack_indexes_and_stores() {
    let pack = DirectoryPack::new(Arc::new(directory_pack_bytes())).unwrap();
    assert_eq!(pack.get_free_data(), [0xee; 24]);
    let all = pack.get_index(0).unwrap();
    assert_eq!(all.count(), 3);
    let last = pack.get_index_from_name(b"last two").unwrap();
    assert_eq!((last.offset(), last.count()), (1, 2));
    assert_eq!(pack.get_index_from_name(b"all").unwrap().count(), 3);
    assert_eq!(pack.get_index_from_name(b"none").err(), Some(Error::Arg));
    assert_eq!(pack.get_index(2).err(), Some(Error::Arg));

    let value_store = Arc::new(pack.get_value_store(0).unwrap());
    assert_eq!(value_store.get_data(5, Some(3)).unwrap(), b"Foo");
    assert_eq!(pack.get_value_store(1).err(), Some(Error::Arg));
    let entry_store = Arc::new(pack.get_entry_store(0).unwrap());
    assert_eq!(pack.get_entry_store(1).err(), Some(Error::Arg));

    let storage = ValueStorage::new(vec![value_store]);
    let builder = AnyBuilder::new(entry_store, &storage).unwrap();
    let entry = last.get_entry(&builder, 0).unwrap().unwrap();
    assert_eq!(entry.get_value(b"A").unwrap(), Some(RawValue::U8(0x03)));
    let b = entry.get_value(b"B").unwrap().unwrap();
    assert_eq!(b.get().unwrap(), Value::Array(b"Hello".to_vec()));
    let compare = builder.new_property_compare(b"A".to_vec(), Value::Unsigned(0x05));
    assert_eq!(last.find(&compare), Ok(Some(1)));
    assert!(pack.check().unwrap());
}

#[test]
fn directory_pack_refuses_other_kinds() {
    let mut bytes = directory_pack_bytes();
    bytes[3] = b'c';
    assert_eq!(DirectoryPack::new(Arc::new(bytes)).err(), Some(Error::InvalidFormat));
}
