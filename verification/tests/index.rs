use jubako::directory_pack::index::{Index, IndexHeader};
use jubako::directory_pack::range::RangeTrait;
use jubako::Error;

#[test]
fn test_index() {
    let content = vec![
        0x01, 0x00, 0x00, 0x00, // store_id
        0x00, 0xff, 0x00, 0x00, // entry_count
        0x02, 0x00, 0x00, 0x00, // entry_offset
        0x00, 0x00, 0x00, 0x00, // free data
        0x01, // index_property
        0x05, 0x48, 0x65, 0x6C, 0x6C, 0x6F, // PString Hello
    ];
    let (header, end) = IndexHeader::produce(&content, 0).unwrap();
    assert_eq!(
        header,
        IndexHeader {
            store_id: 1,
            entry_count: 0xff00,
            entry_offset: 2,
            free_data: [0x00; 4],
            index_property: 1,
            name: b"Hello".to_vec(),
        }
    );
    assert_eq!(end, content.len());
}

#[test]
fn index_header_rejects_invalid_utf8_name() {
    let content = vec![
        0x01, 0x00, 0x00, 0x00, // store_id
        0x00, 0x01, 0x00, 0x00, // entry_count
        0x02, 0x00, 0x00, 0x00, // entry_offset
        0x00, 0x00, 0x00, 0x00, // free data
        0x01, // index_property
        0x02, 0xC3, 0x28, // invalid utf-8
    ];
    assert_eq!(IndexHeader::produce(&content, 0), Err(Error::InvalidFormat));
}

#[test]
fn index_header_truncated() {
    let content = vec![0x01, 0x00, 0x00, 0x00, 0x00, 0xff];
    assert_eq!(IndexHeader::produce(&content, 0), Err(Error::UnexpectedEnd));
}

#[test]
fn index_ranges_over_its_entries() {
    let header = IndexHeader {
        store_id: 3,
        entry_count: 4,
        entry_offset: 10,
        free_data: [0; 4],
        index_property: 0,
        name: b"idx".to_vec(),
    };
    let index = Index::new(header);
    assert_eq!(index.get_store_id(), 3);
    assert_eq!(index.size(), 4);
    assert!(!index.is_empty());
    assert_eq!(index.offset(), 10);
    assert_eq!(index.count(), 4);
}

fn header_with_name(name: &[u8]) -> Vec<u8> {
    let mut content = vec![
        0x01, 0x00, 0x00, 0x00, // store_id
        0x00, 0x01, 0x00, 0x00, // entry_count
        0x02, 0x00, 0x00, 0x00, // entry_offset
        0x00, 0x00, 0x00, 0x00, // free data
        0x01, // index_property
    ];
    content.push(name.len() as u8);
    content.extend_from_slice(name);
    content
}

#[test]
fn index_names_must_be_well_formed_utf8() {
    let accepted: [&[u8]; 4] = ["Jūbako".as_bytes(), "日本".as_bytes(), "😀".as_bytes(), b""];
    for name in accepted {
        let (header, _) = IndexHeader::produce(&header_with_name(name), 0).unwrap();
        assert_eq!(header.name, name.to_vec());
    }
    let refused: [&[u8]; 5] = [
        &[0xC0, 0x80],             // overlong
        &[0xED, 0xA0, 0x80],       // surrogate
        &[0xF4, 0x90, 0x80, 0x80], // above U+10FFFF
        &[0xE2, 0x82],             // cut short
        &[0x80],                   // lone continuation byte
    ];
    for name in refused {
        assert_eq!(IndexHeader::produce(&header_with_name(name), 0), Err(Error::InvalidFormat));
    }
}

#[test]
fn index_range_past_last_entry_is_read() {
    let content = vec![
        0x01, 0x00, 0x00, 0x00, // store_id
        0xff, 0xff, 0xff, 0xff, // entry_count
        0x02, 0x00, 0x00, 0x00, // entry_offset
        0x00, 0x00, 0x00, 0x00, // free data
        0x01, // index_property
        0x00, // empty name
    ];
    let (header, _) = IndexHeader::produce(&content, 0).unwrap();
    assert_eq!(header.entry_count, 0xffff_ffff);
    assert_eq!(header.entry_offset, 2);
    let index = Index::new(header);
    assert_eq!(index.size(), 0xffff_ffff);
    assert_eq!(index.offset(), 2);
    assert_eq!(index.count(), 0xffff_ffff);
}
