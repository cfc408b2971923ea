use jubako::directory_pack::entry_def::{EntryDef, Key, KeyDef, KeyDefKind, KeyKind, VariantDef};
use jubako::directory_pack::index_store::{IndexStore, IndexStoreTrait};
use jubako::directory_pack::layout::entry::Entry;
use jubako::directory_pack::layout::raw_property::{RawProperty, RawPropertyKind};
use jubako::directory_pack::layout::variant::{Property, PropertyKind, Variant};
use jubako::directory_pack::raw_value::ContentAddress;
use jubako::directory_pack::value::{Array, Content, Value};
use jubako::Error;
use std::rc::Rc;

fn parse_store(content: &[u8]) -> IndexStore {
    IndexStore::new(content, 0, content.len()).unwrap()
}

#[test]
fn test_1variant_allkeys() {
    let content = vec![
        0x00, // kind
        0x05, 0x67,        //entry_size (1383)
        0x01,        // variant count
        0x15,        // key count (21)
        0b1000_0000, // Variant id
        0b0000_0111, // padding key(8)
        0b0001_0000, // classic content address
        0b0001_0001, // patch content address
        0b0010_0000, // u8
        0b0010_0010, // u24
        0b0010_0111, // u64
        0b0010_1000, // s8
        0b0010_1010, // s24
        0b0010_1111, // s64
        0b0100_0000, // char[1]
        0b0100_0111, // char[8]
        0b0100_1000, 0x00, // char[9]
        0b0100_1000, 0xFF, // char[264] (255+9)
        0b0100_1011, 0xFF, // char[1032] (1023+9)
        0b0110_0000, 0x0F, // Pstring(1), idx 0x0F
        0b0110_0111, 0x0F, // Pstring(8), idx 0x0F
        0b0111_0000, 0x0F, // PstringLookup(1), idx 0x0F
        0b0100_0001, // base char[2]
        0b0111_0111, 0x0F, // PstringLookup(8), idx 0x0F
        0b0100_0001, // base char[2]
        0x00, 0x00, 0x00, 0x00, 0x00, 0x00, 0x00, 0x00, //data size
    ];
    let IndexStore::Plain(store) = parse_store(&content);
    assert_eq!(store.entry_def.variants.len(), 1);
    let variant = &store.entry_def.variants[0];
    let expected = vec![
        Key::new(9, KeyKind::ContentAddress(0)),
        Key::new(13, KeyKind::ContentAddress(1)),
        Key::new(21, KeyKind::UnsignedInt(1)),
        Key::new(22, KeyKind::UnsignedInt(3)),
        Key::new(25, KeyKind::UnsignedInt(8)),
        Key::new(33, KeyKind::SignedInt(1)),
        Key::new(34, KeyKind::SignedInt(3)),
        Key::new(37, KeyKind::SignedInt(8)),
        Key::new(45, KeyKind::Array(1)),
        Key::new(46, KeyKind::Array(8)),
        Key::new(54, KeyKind::Array(9)),
        Key::new(63, KeyKind::Array(264)),
        Key::new(327, KeyKind::Array(1032)),
        Key::new(1359, KeyKind::VLArray(1, 0x0F, None)),
        Key::new(1360, KeyKind::VLArray(8, 0x0F, None)),
        Key::new(1368, KeyKind::VLArray(1, 0x0F, Some(2))),
        Key::new(1371, KeyKind::VLArray(8, 0x0F, Some(2))),
    ];
    assert_eq!(&variant.properties, &expected);
}

#[test]
fn index_store_test_2variants() {
    let content = vec![
        0x00, // kind
        0x00, 0x12,        //entry_size (18)
        0x02,        // variant count
        0x0A,        // key count (10)
        0b1000_0000, // Variant id
        0b0111_0100, 0x0F, // PstringLookup(5), idx 0x0F
        0b0100_0000,       // base char[1]
        0b0000_0011, // padding key(4)
        0b0001_0000, // classic content address
        0b0010_0010, // u24
        0b1000_0000, // Variant id
        0b0100_0101, // char[6]
        0b0001_0001, // patch content address
        0b0010_0010, // u24
        0x00, 0x00, 0x00, 0x00, 0x00, 0x00, 0x00, 0x00, //data size
    ];
    let IndexStore::Plain(store) = parse_store(&content);
    assert_eq!(store.entry_def.variants.len(), 2);
    let expected = vec![
        Key::new(1, KeyKind::VLArray(5, 0x0F, Some(1))),
        Key::new(11, KeyKind::ContentAddress(0)),
        Key::new(15, KeyKind::UnsignedInt(3)),
    ];
    assert_eq!(&store.entry_def.variants[0].properties, &expected);
    let expected = vec![
        Key::new(1, KeyKind::Array(6)),
        Key::new(7, KeyKind::ContentAddress(1)),
        Key::new(15, KeyKind::UnsignedInt(3)),
    ];
    assert_eq!(&store.entry_def.variants[1].properties, &expected);
}

#[test]
fn index_store_reads_entries() {
    // Two entries of one u16 each, then the header.
    let content = vec![
        0x12, 0x34, 0x56, 0x78, // data
        0x00, // kind
        0x00, 0x02, // entry_size
        0x01, // variant count
        0x01, // key count
        0b0010_0001, // u16
        0x00, 0x00, 0x00, 0x00, 0x00, 0x00, 0x00, 0x04, //data size
    ];
    let store = IndexStore::new(&content, 4, content.len() - 4).unwrap();
    let entry = store.get_entry(1).unwrap();
    assert_eq!(entry.get_variant_id(), 0);
    assert_eq!(entry.get_value(0).unwrap(), Value::U16(0x5678));
    assert_eq!(entry.get_value(1), Err(Error::Arg));
    assert_eq!(store.get_entry(2).err(), Some(Error::UnexpectedEnd));
}

fn single_variant_def() -> Entry {
    Entry {
        variants: vec![Rc::new(
            Variant::new(vec![
                RawProperty::new(RawPropertyKind::ContentAddress(0), 4),
                RawProperty::new(RawPropertyKind::UnsignedInt, 2),
            ])
            .unwrap(),
        )],
        size: 6,
    }
}

fn two_variants_def() -> Entry {
    Entry {
        variants: vec![
            Rc::new(
                Variant::new(vec![
                    RawProperty::new(RawPropertyKind::VariantId, 1),
                    RawProperty::new(RawPropertyKind::CharArray, 4),
                    RawProperty::new(RawPropertyKind::UnsignedInt, 2),
                ])
                .unwrap(),
            ),
            Rc::new(
                Variant::new(vec![
                    RawProperty::new(RawPropertyKind::VariantId, 1),
                    RawProperty::new(RawPropertyKind::CharArray, 2),
                    RawProperty::new(RawPropertyKind::Padding, 1),
                    RawProperty::new(RawPropertyKind::SignedInt, 1),
                    RawProperty::new(RawPropertyKind::UnsignedInt, 2),
                ])
                .unwrap(),
            ),
        ],
        size: 7,
    }
}

fn content(pack: u16, id: u32) -> Value {
    Value::Content(Content::new(ContentAddress::new(pack, id), None))
}

#[test]
fn entry_create_entry() {
    let entry_def = single_variant_def();
    let entry = entry_def.create_entry(&[0x00, 0x00, 0x00, 0x01, 0x88, 0x99]).unwrap();
    assert!(entry.get_variant_id() == 0);
    assert!(entry.get_value(0).unwrap() == content(0, 1));
    assert!(entry.get_value(1).unwrap() == Value::U16(0x8899));

    let entry = entry_def.create_entry(&[0x01, 0x00, 0x00, 0x02, 0x66, 0x77]).unwrap();
    assert!(entry.get_variant_id() == 0);
    assert!(entry.get_value(0).unwrap() == content(1, 2));
    assert!(entry.get_value(1).unwrap() == Value::U16(0x6677));
}

#[test]
fn entry_create_entry_with_variant() {
    let entry_def = two_variants_def();
    let entry = entry_def.create_entry(&[0x00, 0xFF, 0xEE, 0xDD, 0xCC, 0x88, 0x99]).unwrap();
    assert!(entry.get_variant_id() == 0);
    assert!(entry.get_value(0).unwrap() == Value::Array(Array::new(vec![0xFF, 0xEE, 0xDD, 0xCC], None)));
    assert!(entry.get_value(1).unwrap() == Value::U16(0x8899));

    let entry = entry_def.create_entry(&[0x01, 0xFF, 0xEE, 0xDD, 0xCC, 0x88, 0x99]).unwrap();
    assert!(entry.get_variant_id() == 1);
    assert!(entry.get_value(0).unwrap() == Value::Array(Array::new(vec![0xFF, 0xEE], None)));
    assert!(entry.get_value(1).unwrap() == Value::I8(-52));
    assert!(entry.get_value(2).unwrap() == Value::U16(0x8899));
}

#[test]
fn entry_def_create_entry() {
    let entry_def = EntryDef {
        variants: vec![Rc::new(
            VariantDef::new(vec![
                KeyDef::new(KeyDefKind::ContentAddress(0), 4),
                KeyDef::new(KeyDefKind::UnsignedInt, 2),
            ])
            .unwrap(),
        )],
        size: 6,
    };
    let entry = entry_def.create_entry(&[0x00, 0x00, 0x00, 0x01, 0x88, 0x99]).unwrap();
    assert!(entry.get_variant_id() == 0);
    assert!(entry.get_value(0).unwrap() == content(0, 1));
    assert!(entry.get_value(1).unwrap() == Value::U16(0x8899));

    let entry = entry_def.create_entry(&[0x01, 0x00, 0x00, 0x02, 0x66, 0x77]).unwrap();
    assert!(entry.get_variant_id() == 0);
    assert!(entry.get_value(0).unwrap() == content(1, 2));
    assert!(entry.get_value(1).unwrap() == Value::U16(0x6677));
}

#[test]
fn entry_def_create_entry_with_variant() {
    let entry_def = EntryDef {
        variants: vec![
            Rc::new(
                VariantDef::new(vec![
                    KeyDef::new(KeyDefKind::VariantId, 1),
                    KeyDef::new(KeyDefKind::CharArray, 4),
                    KeyDef::new(KeyDefKind::UnsignedInt, 2),
                ])
                .unwrap(),
            ),
            Rc::new(
                VariantDef::new(vec![
                    KeyDef::new(KeyDefKind::VariantId, 1),
                    KeyDef::new(KeyDefKind::CharArray, 2),
                    KeyDef::new(KeyDefKind::Padding, 1),
                    KeyDef::new(KeyDefKind::SignedInt, 1),
                    KeyDef::new(KeyDefKind::UnsignedInt, 2),
                ])
                .unwrap(),
            ),
        ],
        size: 7,
    };
    let entry = entry_def.create_entry(&[0x00, 0xFF, 0xEE, 0xDD, 0xCC, 0x88, 0x99]).unwrap();
    assert!(entry.get_variant_id() == 0);
    assert!(entry.get_value(0).unwrap() == Value::Array(Array::new(vec![0xFF, 0xEE, 0xDD, 0xCC], None)));
    assert!(entry.get_value(1).unwrap() == Value::U16(0x8899));

    let entry = entry_def.create_entry(&[0x01, 0xFF, 0xEE, 0xDD, 0xCC, 0x88, 0x99]).unwrap();
    assert!(entry.get_variant_id() == 1);
    assert!(entry.get_value(0).unwrap() == Value::Array(Array::new(vec![0xFF, 0xEE], None)));
    assert!(entry.get_value(1).unwrap() == Value::I8(-52));
    assert!(entry.get_value(2).unwrap() == Value::U16(0x8899));
}

#[test]
fn entry_rejects_unknown_variant() {
    let entry_def = two_variants_def();
    assert_eq!(
        entry_def.create_entry(&[0x02, 0, 0, 0, 0, 0, 0]).err(),
        Some(Error::InvalidFormat)
    );
}

#[test]
fn variant_rejects_late_variant_id() {
    let r = Variant::new(vec![
        RawProperty::new(RawPropertyKind::CharArray, 2),
        RawProperty::new(RawPropertyKind::VariantId, 1),
    ]);
    assert_eq!(r.err(), Some(Error::InvalidFormat));
}

#[test]
fn variant_lays_out_properties() {
    let v = Variant::new(vec![
        RawProperty::new(RawPropertyKind::VariantId, 1),
        RawProperty::new(RawPropertyKind::Padding, 3),
        RawProperty::new(RawPropertyKind::PString(true, 2), 2),
        RawProperty::new(RawPropertyKind::CharArray, 5),
        RawProperty::new(RawPropertyKind::SignedInt, 4),
    ])
    .unwrap();
    assert_eq!(
        v.properties,
        vec![
            Property::new(4, PropertyKind::VLArray(2, 2, Some(5))),
            Property::new(11, PropertyKind::SignedInt(4)),
        ]
    );
}
