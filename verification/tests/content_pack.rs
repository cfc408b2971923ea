use jubako::pack::PackKind;
use jubako::reader::content_pack::ContentPack;
use jubako::Error;
use std::sync::Arc;

fn content_pack_bytes() -> Vec<u8> {
    let mut content = vec![];
    // Pack header offset 0/0x00
    content.extend_from_slice(&[
        0x6a, 0x62, 0x6b, 0x63, // magic
        0x00, 0x00, 0x00, 0x01, // app_vendor_id
        0x00, // major_version
        0x02, // minor_version
        0x00, 0x01, 0x02, 0x03, 0x04, 0x05, 0x06, 0x07, 0x08, 0x09, 0x0a, 0x0b, 0x0c, 0x0d, 0x0e, 0x0f, // uuid
        0x00, 0x00, 0x00, 0x00, 0x00, 0x00, // padding
        0x1C, 0x01, 0x00, 0x00, 0x00, 0x00, 0x00, 0x00, // file_size
        0xB7, 0x00, 0x00, 0x00, 0x00, 0x00, 0x00, 0x00, // check_info_pos
        0x00, 0x00, 0x00, 0x00, 0x00, 0x00, 0x00, 0x00, 0x00, 0x00, 0x00, 0x00, // reserved
    ]);
    content.extend_from_slice(&[0xE8, 0x9E, 0x15, 0x60]); // CRC
    // ContentPack header offset 64/0x40
    content.extend_from_slice(&[
        0x80, 0x00, 0x00, 0x00, 0x00, 0x00, 0x00, 0x00, // entry_ptr_pos
        0x90, 0x00, 0x00, 0x00, 0x00, 0x00, 0x00, 0x00, // cluster_ptr_pos
        0x03, 0x00, 0x00, 0x00, // entry count
        0x01, 0x00, 0x00, 0x00, // cluster count
    ]);
    content.extend_from_slice(&[0xff; 36]); // free_data
    content.extend_from_slice(&[0x93, 0xF9, 0x45, 0x68]); // CRC
    // Entry ptr array offset 128/0x80 (entry_ptr_pos)
    content.extend_from_slice(&[
        0x00, 0x00, 0x00, 0x00, // first entry info
        0x01, 0x00, 0x00, 0x00, // second entry info
        0x02, 0x00, 0x00, 0x00, // third entry info
    ]);
    content.extend_from_slice(&[0x84, 0xC1, 0x1C, 0xD2]); // CRC
    // Cluster ptr array offset 144/0x90 (cluster_ptr_pos)
    content.extend_from_slice(&[
        0x08, 0x00, // first (and only) cluster size
        0xAB, 0x00, 0x00, 0x00, 0x00, 0x00, // first (and only) ptr pos.
    ]);
    content.extend_from_slice(&[0x35, 0x23, 0x26, 0x1E]); // CRC
    // Cluster data offset 156/0x9C
    content.extend_from_slice(&[
        0x11, 0x12, 0x13, 0x14, 0x15, // Data of blob 0
        0x21, 0x22, 0x23, // Data of blob 1
        0x31, 0x32, 0x33, 0x34, 0x35, 0x36, 0x37, // Data of blob 2
    ]);
    // Cluster tail offset 171/0xAB (cluster_header)
    content.extend_from_slice(&[
        0x00, // compression
        0x01, // offset_size
        0x03, 0x00, // blob_count
        0x0f, // raw data size
        0x0f, // Data size
        0x05, // Offset of blob 1
        0x08, // Offset of blob 2
    ]);
    content.extend_from_slice(&[0x42, 0xCC, 0x02, 0x58]); // CRC
    // Check info offset 183/0xB7 (check_info_pos)
    let hash = blake3::hash(&content);
    content.push(0x01);
    content.extend(hash.as_bytes());
    content.extend_from_slice(&[0x78, 0x20, 0x61, 0xB7]); // CRC
    // Footer offset 220/0xDC
    let mut footer = [0; 64];
    footer.copy_from_slice(&content[..64]);
    footer.reverse();
    content.extend_from_slice(&footer);
    content
}

fn read(pack: &ContentPack, index: u32) -> Vec<u8> {
    let bytes = pack.get_content(index).unwrap().expect("a valid content idx");
    let size = bytes.size();
    let v = bytes.stream().read_all();
    assert_eq!(v.len() as u64, size);
    v
}

#[test]
fn test_contentpack() {
    let content_pack = ContentPack::new(Arc::new(content_pack_bytes())).unwrap();
    assert_eq!(content_pack.get_content_count(), 3);
    assert_eq!(content_pack.app_vendor_id(), [0, 0, 0, 1]);
    assert_eq!(content_pack.version(), (0, 2));
    assert_eq!(
        content_pack.uuid(),
        [0x00, 0x01, 0x02, 0x03, 0x04, 0x05, 0x06, 0x07, 0x08, 0x09, 0x0a, 0x0b, 0x0c, 0x0d, 0x0e, 0x0f]
    );
    assert_eq!(content_pack.get_free_data(), [0xff; 24]);
    assert!(content_pack.check().unwrap());
    assert_eq!(read(&content_pack, 0), [0x11, 0x12, 0x13, 0x14, 0x15]);
    assert_eq!(read(&content_pack, 1), [0x21, 0x22, 0x23]);
    assert_eq!(read(&content_pack, 2), [0x31, 0x32, 0x33, 0x34, 0x35, 0x36, 0x37]);
}

#[test]
fn content_pack_past_last_content_is_none() {
    let content_pack = ContentPack::new(Arc::new(content_pack_bytes())).unwrap();
    assert!(content_pack.get_content(3).unwrap().is_none());
    assert_eq!(content_pack.kind(), PackKind::Content);
    assert_eq!(content_pack.size(), 0x011C);
}

#[test]
fn content_pack_with_bad_cluster_index() {
    let mut bytes = content_pack_bytes();
    bytes[128 + 4 + 1] = 0x01; // second content in cluster 1 of 1
    let content_pack = ContentPack::new(Arc::new(bytes)).unwrap();
    assert_eq!(content_pack.get_content(1).err(), Some(Error::InvalidFormat));
    assert!(!content_pack.check().unwrap());
}

#[test]
fn content_pack_refuses_other_kinds() {
    let mut bytes = content_pack_bytes();
    bytes[3] = b'd';
    assert_eq!(ContentPack::new(Arc::new(bytes)).err(), Some(Error::InvalidFormat));
    let short = content_pack_bytes()[..100].to_vec();
    assert_eq!(ContentPack::new(Arc::new(short)).err(), Some(Error::UnexpectedEnd));
}
