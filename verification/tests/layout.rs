use jubako::bases::ByteSize;
use jubako::directory_pack::entry_store::EntryStore;
use jubako::directory_pack::layout::description::FieldValue;
use jubako::directory_pack::layout::{Properties, Property, VariantPart};
use jubako::directory_pack::raw_layout::{PropertyKind, RawLayout, RawProperty};

fn u8_prop(name: &str) -> RawProperty {
    RawProperty::new(PropertyKind::UnsignedInt { int_size: ByteSize::U1, default: None }, 1, name.as_bytes().to_vec())
}

#[test]
fn properties_are_laid_out_one_after_the_other() {
    let props = Properties::new(
        3,
        vec![
            u8_prop("a"),
            RawProperty::new(PropertyKind::Padding, 2, Vec::new()),
            RawProperty::new(PropertyKind::SignedInt { int_size: ByteSize::U4, default: None }, 4, b"b".to_vec()),
            u8_prop("c"),
        ],
    );
    assert_eq!(props.iter().len(), 3);
    assert_eq!(props.get(b"a").unwrap().offset, 3);
    assert_eq!(props.get(b"b").unwrap().offset, 6);
    assert_eq!(props.get(b"c").unwrap().offset, 10);
    assert!(!props.contains(b"d"));
}

#[test]
fn a_later_property_of_the_same_name_wins() {
    let props = Properties::new(0, vec![u8_prop("a"), u8_prop("a")]);
    assert_eq!(props.iter().len(), 1);
    assert_eq!(
        props.get(b"a"),
        Some(&Property::new(1, PropertyKind::UnsignedInt { int_size: ByteSize::U1, default: None }))
    );
}

#[test]
fn variant_part_names_later_pair_wins() {
    let vp = VariantPart::new(
        4,
        vec![Properties::new(5, vec![u8_prop("x")]), Properties::new(5, vec![u8_prop("y")])],
        vec![(b"A".to_vec(), 0), (b"B".to_vec(), 1), (b"A".to_vec(), 1)],
    );
    assert_eq!(vp.len(), 2);
    assert!(!vp.is_empty());
    assert_eq!(vp.names().len(), 2);
    assert!(vp.get(b"A").unwrap().contains(b"y"));
    assert!(vp.get(b"B").unwrap().contains(b"y"));
    assert!(vp.get(b"C").is_none());
}

#[test]
fn layout_variants_by_name_and_id() {
    let content = vec![
        0xFF, 0xFF, 0xFF, 0xFF, // checksum of the (absent) entries
        0x00, // kind
        0x00, 0x00, 0x00, 0x00, // entry_count
        0x00, // flag
        0x03, 0x00,  // entry_size
        0x02,        // variant count
        0x05,        // property count
        0b1000_0000, 2, b'V', b'B', // variant id
        0b0010_0000, 1, b'x', // u8
        0b0010_0000, 1, b'y', // u8
        0b1000_0000, 2, b'V', b'A', // variant id
        0b0010_0001, 1, b'z', // u16
        0, 0, 0, 0, // checksum
    ];
    let store = EntryStore::parse(&content, 4, content.len() - 8).unwrap();
    let layout = store.layout();
    assert_eq!(layout.variant_len(), 2);
    assert!(layout.get_variant(b"VB").unwrap().contains(b"x"));
    assert!(layout.get_variant(b"VA").unwrap().contains(b"z"));
    assert!(layout.get_variant(b"VC").is_none());
    let builder = layout.variant_id_builder().unwrap();
    assert_eq!(builder.variant_names(), &vec![b"VB".to_vec(), b"VA".to_vec()]);
}

#[test]
fn raw_layout_reads_property_definitions() {
    let content = vec![0x02, 0b0010_0000, 1, b'x', 0b0000_0001];
    let (raw, end) = RawLayout::parse(&content, 0).unwrap();
    assert_eq!(end, content.len());
    assert_eq!(raw.0.len(), 2);
    assert_eq!(raw.0[0].name, b"x".to_vec());
    assert_eq!(raw.0[1].kind, PropertyKind::Padding);
    assert_eq!(raw.0[1].size, 2);
}

#[test]
fn property_description_shows_the_fields_of_its_kind() {
    let p = Property::new(12, PropertyKind::UnsignedInt { int_size: ByteSize::U3, default: None });
    assert_eq!(p.header(), "Unsigned Int");
    assert_eq!(p.fields(), vec![("offset", FieldValue::Int(12)), ("int_size", FieldValue::Int(3))]);
    let p = Property::new(12, PropertyKind::SignedInt { int_size: ByteSize::U3, default: Some(-4) });
    assert_eq!(p.header(), "Signed Int");
    assert_eq!(p.fields(), vec![("default", FieldValue::SignedInt(-4))]);
    let p = Property::new(
        0,
        PropertyKind::DeportedUnsignedInt {
            int_size: ByteSize::U2,
            value_store_idx: 3,
            id: jubako::directory_pack::raw_layout::DeportedDefault::Value(9),
        },
    );
    assert_eq!(
        p.fields(),
        vec![("int_size", FieldValue::Int(2)), ("value_store_idx", FieldValue::Int(3)), ("key", FieldValue::Int(9))]
    );
    let p = Property::new(5, PropertyKind::Padding);
    assert_eq!(p.header(), "Padding");
    assert!(p.fields().is_empty());
    let p = Property::new(7, PropertyKind::VariantId);
    assert_eq!(p.fields(), vec![("offset", FieldValue::Int(7))]);
}
