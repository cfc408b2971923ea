use jubako::bases::ByteSize;
use jubako::directory_pack::entry_store::EntryStore;
use jubako::directory_pack::layout::{Properties, Property};
use jubako::directory_pack::raw_layout::{DeportedInfo, PropertyKind};

fn parse_store(content: &[u8]) -> EntryStore {
    EntryStore::parse(content, 4, content.len() - 8).unwrap()
}

/// Checks that `props` holds exactly the `expected` (name, property) pairs.
fn assert_properties(props: &Properties, expected: &[(&str, Property)]) {
    assert_eq!(props.iter().len(), expected.len());
    for (name, property) in expected {
        assert_eq!(props.get(name.as_bytes()), Some(property), "property {name}");
    }
}

fn array(len_size: ByteSize, fixed: u8, deported: Option<(ByteSize, u8)>) -> PropertyKind {
    PropertyKind::Array {
        array_len_size: Some(len_size),
        fixed_array_len: fixed,
        deported_info: deported.map(|(id_size, idx)| DeportedInfo {
            id_size,
            value_store_idx: idx,
        }),
        default: None,
    }
}

#[test]
fn test_1variant_allproperties() {
    let content = vec![
        0xFF, 0xFF, 0xFF, 0xFF, // Dummy CRC of the non existant data
        0x00, // kind
        0x00, 0x00, 0x00, 0x00, // entry_count
        0x00, // flag
        0x6D, 0x00,  //entry_size (108)
        0x00,        // variant count
        0x10,       // property count (16)
        0b0000_0111, // padding (8)
        0b0001_0010, 2, b'V', b'0', // content address
        0b0010_0000, 2, b'V', b'1', // u8
        0b0010_0010, 2, b'V', b'2', // u24
        0b0010_0111, 2, b'V', b'3', // u64
        0b0011_0000, 2, b'V', b'4', // s8
        0b0011_0010, 2, b'V', b'5', // s24
        0b0011_0111, 2, b'V', b'6', // s64
        0b0101_0010, 0b000_00001, 2, b'V', b'7', // char2[1]
        0b0101_0010, 0b000_01000, 2, b'V', b'8', // char2[8]
        0b0101_0010, 0b000_11111, 2, b'V', b'9', // char2[31]
        0b0101_0001, 0b001_00000, 0x0F, 3 , b'V', b'1', b'0', // char1[0] + deported(1)
        0b0101_0010, 0b111_00000, 0x0F, 3 , b'V', b'1', b'1', // char2[0] + deported(7)
        0b0101_0001, 0b001_00010, 0x0F, 3 , b'V', b'1', b'2', // char1[2] + deported(1)
        0b0101_0010, 0b111_00010, 0x0F, 3 , b'V', b'1', b'3', // char2[2] + deported(7)
        0b0001_1100, 0x01, 0x02, 3 , b'V', b'1', b'4', // content address, default pack 0x0201
        0x1A, 0x01, 0x65, 0xB7, // crc
    ];
    let EntryStore::Plain(store) = parse_store(&content);
    let layout = store.layout();
    assert!(layout.variant_part.is_none());
    let expected = [
        (
            "V0",
            Property::new(
                8,
                PropertyKind::ContentAddress {
                    pack_id_size: ByteSize::U1,
                    content_id_size: ByteSize::U3,
                    default_pack_id: None,
                },
            ),
        ),
        ("V1", Property::new(12, PropertyKind::UnsignedInt { int_size: ByteSize::U1, default: None })),
        ("V2", Property::new(13, PropertyKind::UnsignedInt { int_size: ByteSize::U3, default: None })),
        ("V3", Property::new(16, PropertyKind::UnsignedInt { int_size: ByteSize::U8, default: None })),
        ("V4", Property::new(24, PropertyKind::SignedInt { int_size: ByteSize::U1, default: None })),
        ("V5", Property::new(25, PropertyKind::SignedInt { int_size: ByteSize::U3, default: None })),
        ("V6", Property::new(28, PropertyKind::SignedInt { int_size: ByteSize::U8, default: None })),
        ("V7", Property::new(36, array(ByteSize::U2, 1, None))),
        ("V8", Property::new(39, array(ByteSize::U2, 8, None))),
        ("V9", Property::new(49, array(ByteSize::U2, 31, None))),
        ("V10", Property::new(82, array(ByteSize::U1, 0, Some((ByteSize::U1, 0x0F))))),
        ("V11", Property::new(84, array(ByteSize::U2, 0, Some((ByteSize::U7, 0x0F))))),
        ("V12", Property::new(93, array(ByteSize::U1, 2, Some((ByteSize::U1, 0x0F))))),
        ("V13", Property::new(97, array(ByteSize::U2, 2, Some((ByteSize::U7, 0x0F))))),
        (
            "V14",
            Property::new(
                108,
                PropertyKind::ContentAddress {
                    pack_id_size: ByteSize::U2,
                    content_id_size: ByteSize::U1,
                    default_pack_id: Some(0x0201),
                },
            ),
        ),
    ];
    assert_properties(&layout.common, &expected);
}

#[test]
fn entry_store_test_2variants() {
    let content = vec![
        0xFF, 0xFF, 0xFF, 0xFF, // Dummy CRC of the non existant data
        0x00, // kind
        0x00, 0x00, 0x00, 0x00, // entry_count (0),
        0x00, //flag
        0x1D, 0x00,  //entry_size (29)
        0x02,        // variant count
        0x0B,        // property count
        0b0000_0110, // padding (7)
        0b0101_0011, 0b001_00001, 0x0F, 2, b'C', b'0', // char3[1] + deported(1) 0x0F
        0b1000_0000, 3, b'V', b'A', b'0', // Variant id
        0b0101_0011, 0b101_00001, 0x0F, 2, b'V', b'0',  // char3[1] + deported(5)
        0b0001_0010, 2, b'V', b'1', // content address
        0b0010_0010, 2, b'V', b'2', // u24
        0b1000_0000, 3, b'V', b'A', b'1', // Variant id
        0b0101_0011, 0b000_00101, 2, b'V', b'0', // char3[5]
        0b0001_0101, 2, b'V', b'1',  // content address
        0b0010_0010, 2, b'V', b'2',  // u24
        0b0000_0000,  // padding (1)
        0x91, 0xFF, 0xB6, 0x2A, // crc
    ];
    let EntryStore::Plain(store) = parse_store(&content);
    let layout = store.layout();
    assert_properties(
        &layout.common,
        &[("C0", Property::new(7, array(ByteSize::U3, 1, Some((ByteSize::U1, 0x0F)))))],
    );

    let variant_part = layout.variant_part.as_ref().unwrap();
    assert_eq!(variant_part.variant_id_offset, 12);
    assert_eq!(variant_part.variants().len(), 2);
    let mut names = variant_part.names().clone();
    names.sort();
    assert_eq!(names, vec![(b"VA0".to_vec(), 0), (b"VA1".to_vec(), 1)]);
    assert_properties(
        &variant_part.variants()[0],
        &[
            ("V0", Property::new(13, array(ByteSize::U3, 1, Some((ByteSize::U5, 0x0F))))),
            (
                "V1",
                Property::new(
                    22,
                    PropertyKind::ContentAddress {
                        pack_id_size: ByteSize::U1,
                        content_id_size: ByteSize::U3,
                        default_pack_id: None,
                    },
                ),
            ),
            ("V2", Property::new(26, PropertyKind::UnsignedInt { int_size: ByteSize::U3, default: None })),
        ],
    );
    assert_properties(
        &variant_part.variants()[1],
        &[
            ("V0", Property::new(13, array(ByteSize::U3, 5, None))),
            (
                "V1",
                Property::new(
                    21,
                    PropertyKind::ContentAddress {
                        pack_id_size: ByteSize::U2,
                        content_id_size: ByteSize::U2,
                        default_pack_id: None,
                    },
                ),
            ),
            ("V2", Property::new(25, PropertyKind::UnsignedInt { int_size: ByteSize::U3, default: None })),
        ],
    );
}

#[test]
fn entry_store_rejects_unknown_kind() {
    let mut content = vec![0xFF, 0xFF, 0xFF, 0xFF, 0x01, 0, 0, 0, 0, 0, 0, 0, 0, 0];
    content.extend_from_slice(&[0, 0, 0, 0]);
    assert!(EntryStore::parse(&content, 4, content.len() - 8).is_err());
}

#[test]
fn entry_store_gives_entries_in_order() {
    // Two entries of one u16 each, unchecked: data, checksum, header.
    let content = vec![
        0x01, 0x02, 0x03, 0x04, // two entries
        0xFF, 0xFF, 0xFF, 0xFF, // checksum
        0x00, // kind
        0x02, 0x00, 0x00, 0x00, // entry_count
        0x00, // flag
        0x02, 0x00, // entry_size
        0x00, // variant count
        0x01, // property count
        0b0010_0001, 1, b'A', // u16
    ];
    let header_size = content.len() - 8;
    let store = EntryStore::parse(&content, 8, header_size).unwrap();
    assert_eq!(store.get_entry_reader(0), Some(&[0x01u8, 0x02][..]));
    assert_eq!(store.get_entry_reader(1), Some(&[0x03u8, 0x04][..]));
    assert_eq!(store.get_entry_reader(2), None);
}
