use jubako::directory_pack::key_store::KeyStore;
use jubako::directory_pack::value_store::{ValueStore, ValueStoreBuilder};
use jubako::Error;

fn be_u64(b: &[u8]) -> u64 {
    let mut v = 0u64;
    for x in b {
        v = (v << 8) | *x as u64;
    }
    v
}

#[test]
fn test_keystorekind() {
    // The first header byte tells the kind of the store: 0 plain, 1 indexed, else an error.
    let plain = [0x00, 0, 0, 0, 0, 0, 0, 0, 0];
    assert!(matches!(KeyStore::new(&plain, 0, 9).unwrap(), KeyStore::Plain(_)));
    let indexed = [0x01, 0, 0, 0, 0, 0, 0, 0, 0, 0x01, 0x00];
    assert!(matches!(KeyStore::new(&indexed, 0, 11).unwrap(), KeyStore::Indexed(_)));
    let other = [0x02, 0, 0, 0, 0, 0, 0, 0, 0];
    assert!(KeyStore::new(&other, 0, 9).is_err());
}

#[test]
fn test_plainkeystore() {
    let content = vec![
        0x05, 0x11, 0x12, 0x13, 0x14, 0x15, // Data of entry 0
        0x03, 0x21, 0x22, 0x23, // Data of entry 1
        0x07, 0x31, 0x32, 0x33, 0x34, 0x35, 0x36, 0x37, // Data of entry 2
        0x00, // kind
        0x00, 0x00, 0x00, 0x00, 0x00, 0x00, 0x00, 0x12, // data_size
    ];
    let key_store = KeyStore::new(&content, 18, 9).unwrap();
    match &key_store {
        KeyStore::Plain(_) => {
            let data = key_store.data();
            assert_eq!(data.len(), 0x12);
            assert_eq!(be_u64(&data[0..8]), 0x0511121314150321_u64);
            assert_eq!(be_u64(&data[8..16]), 0x2223073132333435_u64);
        }
        _ => panic!("Wrong type"),
    }
    assert_eq!(key_store.get_data(0).unwrap(), vec![0x11, 0x12, 0x13, 0x14, 0x15]);
    assert_eq!(key_store.get_data(6).unwrap(), vec![0x21, 0x22, 0x23]);
    assert_eq!(
        key_store.get_data(10).unwrap(),
        vec![0x31, 0x32, 0x33, 0x34, 0x35, 0x36, 0x37]
    );
}

#[test]
fn test_indexedkeystore() {
    let content = vec![
        0x11, 0x12, 0x13, 0x14, 0x15, // Data of entry 0
        0x21, 0x22, 0x23, // Data of entry 1
        0x31, 0x32, 0x33, 0x34, 0x35, 0x36, 0x37, // Data of entry 2
        0x01, // kind
        0x00, 0x00, 0x00, 0x00, 0x00, 0x00, 0x00, 0x03, // key count
        0x01, // offset_size
        0x0f, // data_size
        0x05, // Offset of entry 1
        0x08, // Offset of entry 2
    ];
    let key_store = KeyStore::new(&content, 15, 13).unwrap();
    match &key_store {
        KeyStore::Indexed(_) => {
            assert_eq!(key_store.entry_offsets().unwrap(), &vec![0u64, 5, 8, 15]);
            let data = key_store.data();
            assert_eq!(data.len(), 0x0f);
            assert_eq!(be_u64(&data[0..8]), 0x1112131415212223_u64);
            assert_eq!(be_u64(&data[8..15]), 0x31323334353637_u64);
        }
        _ => panic!("Wrong type"),
    }
    assert_eq!(key_store.get_data(0).unwrap(), vec![0x11, 0x12, 0x13, 0x14, 0x15]);
    assert_eq!(key_store.get_data(1).unwrap(), vec![0x21, 0x22, 0x23]);
    assert_eq!(
        key_store.get_data(2).unwrap(),
        vec![0x31, 0x32, 0x33, 0x34, 0x35, 0x36, 0x37]
    );
}

#[test]
fn indexed_key_store_unknown_key() {
    let content = vec![
        0x11, 0x12, // data
        0x01, // kind
        0x00, 0x00, 0x00, 0x00, 0x00, 0x00, 0x00, 0x01, // key count
        0x01, // offset_size
        0x02, // data_size
    ];
    let key_store = KeyStore::new(&content, 2, 11).unwrap();
    assert_eq!(key_store.get_data(0).unwrap(), vec![0x11, 0x12]);
    assert_eq!(key_store.get_data(1), Err(Error::Arg));
}

#[test]
fn plain_key_store_key_past_end() {
    let content = vec![0x05, 0x11, 0x00, 0, 0, 0, 0, 0, 0, 0, 0x02];
    let key_store = KeyStore::new(&content, 2, 9).unwrap();
    assert_eq!(key_store.get_data(0), Err(Error::UnexpectedEnd));
}

#[test]
fn test_valuestorekind() {
    // The first header byte tells the kind of the store: 0 plain, 1 indexed, else an error.
    let plain = [0x00, 0, 0, 0, 0, 0, 0, 0, 0];
    assert!(matches!(ValueStoreBuilder::parse(&plain, 0), Ok((ValueStoreBuilder::Plain, 0, 9))));
    let indexed = [0x01, 0, 0, 0, 0, 0, 0, 0, 0, 0x01, 0x00];
    assert!(matches!(ValueStoreBuilder::parse(&indexed, 0), Ok((ValueStoreBuilder::Indexed(_), 0, 11))));
    let other = [0x02, 0, 0, 0, 0, 0, 0, 0, 0];
    assert!(ValueStoreBuilder::parse(&other, 0).is_err());
}

#[test]
fn test_plainvaluestore() {
    let content = vec![
        0x11, 0x12, 0x13, 0x14, 0x15, // Data of entry 0
        0x21, 0x22, 0x23, // Data of entry 1
        0x31, 0x32, 0x33, 0x34, 0x35, 0x36, 0x37, // Data of entry 2
        0x0D, 0x0D, 0x73, 0xA0, // CRC
        0x00, // kind
        0x0F, 0x00, 0x00, 0x00, 0x00, 0x00, 0x00, 0x00, // data_size
        0xE4, 0x65, 0xB6, 0xC7, // CRC
    ];
    let value_store = ValueStore::parse(&content, 19, 9).unwrap();
    match &value_store {
        ValueStore::Plain(_) => {
            let data = value_store.data();
            assert_eq!(data.len(), 0x0F);
            assert_eq!(&data[0..8], &[0x11, 0x12, 0x13, 0x14, 0x15, 0x21, 0x22, 0x23]);
            assert_eq!(&data[7..12], &[0x23, 0x31, 0x32, 0x33, 0x34]);
        }
        _ => panic!("Wrong type"),
    }
    assert_eq!(value_store.get_data(0, Some(5)).unwrap(), &[0x11, 0x12, 0x13, 0x14, 0x15]);
    assert_eq!(value_store.get_data(5, Some(3)).unwrap(), &[0x21, 0x22, 0x23]);
    assert_eq!(
        value_store.get_data(8, Some(7)).unwrap(),
        &[0x31, 0x32, 0x33, 0x34, 0x35, 0x36, 0x37]
    );
}

#[test]
fn test_indexedvaluestore() {
    let content = vec![
        0x11, 0x12, 0x13, 0x14, 0x15, // Data of entry 0
        0x21, 0x22, 0x23, // Data of entry 1
        0x31, 0x32, 0x33, 0x34, 0x35, 0x36, 0x37, // Data of entry 2
        0x0D, 0x0D, 0x73, 0xA0, // CRC
        0x01, // kind
        0x03, 0x00, 0x00, 0x00, 0x00, 0x00, 0x00, 0x00, // value count
        0x01, // offset_size
        0x0f, // data_size
        0x05, // Offset of entry 1
        0x08, // Offset of entry 2
        0x1E, 0x6E, 0xE7, 0xB7, // CRC
    ];
    let value_store = ValueStore::parse(&content, 19, 13).unwrap();
    match &value_store {
        ValueStore::Indexed(_) => {
            assert_eq!(value_store.value_offsets().unwrap(), &vec![0u64, 5, 8, 15]);
            let data = value_store.data();
            assert_eq!(data.len(), 0x0f);
            assert_eq!(&data[0..8], &[0x11, 0x12, 0x13, 0x14, 0x15, 0x21, 0x22, 0x23]);
            assert_eq!(&data[8..15], &[0x31, 0x32, 0x33, 0x34, 0x35, 0x36, 0x37]);
        }
        _ => panic!("Wrong type"),
    }
    assert_eq!(value_store.get_data(0, None).unwrap(), &[0x11, 0x12, 0x13, 0x14, 0x15]);
    assert_eq!(value_store.get_data(1, None).unwrap(), &[0x21, 0x22, 0x23]);
    assert_eq!(
        value_store.get_data(2, None).unwrap(),
        &[0x31, 0x32, 0x33, 0x34, 0x35, 0x36, 0x37]
    );
    assert_eq!(value_store.get_data(0, Some(5)).unwrap(), &[0x11, 0x12, 0x13, 0x14, 0x15]);
    assert_eq!(value_store.get_data(1, Some(3)).unwrap(), &[0x21, 0x22, 0x23]);
    assert_eq!(
        value_store.get_data(2, Some(7)).unwrap(),
        &[0x31, 0x32, 0x33, 0x34, 0x35, 0x36, 0x37]
    );
}

#[test]
fn value_store_out_of_range() {
    let content = vec![
        0x11, 0x12, 0x13, // data
        0, 0, 0, 0, // CRC
        0x00, // kind
        0x03, 0x00, 0x00, 0x00, 0x00, 0x00, 0x00, 0x00, // data_size
    ];
    let value_store = ValueStore::parse(&content, 7, 9).unwrap();
    assert_eq!(value_store.get_data(1, Some(2)).unwrap(), &[0x12, 0x13]);
    assert!(value_store.get_data(2, Some(2)).is_err());
}
