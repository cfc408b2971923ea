use jubako::pack::PackKind;
use jubako::reader::manifest_pack::{ManifestPack, PackInfo};
use jubako::Error;
use std::sync::Arc;

fn manifest_bytes() -> Vec<u8> {
    let mut content = Vec::new();
    content.extend_from_slice(&[
        b'j', b'b', b'k', b'm', // magic
        0x00, 0x00, 0x00, 0x01, // app_vendor_id
        0x00, // major_version
        0x02, // minor_version
        0x00, 0x01, 0x02, 0x03, 0x04, 0x05, 0x06, 0x07, 0x08, 0x09, 0x0a, 0x0b, 0x0c, 0x0d, 0x0e, 0x0f, // uuid
        0x00, 0x00, 0x00, 0x00, 0x00, 0x00, // padding
        0xE5, 0x03, 0x00, 0x00, 0x00, 0x00, 0x00, 0x00, // file_size
        0x80, 0x03, 0x00, 0x00, 0x00, 0x00, 0x00, 0x00, // check_info_pos
        0x00, 0x00, 0x00, 0x00, 0x00, 0x00, 0x00, 0x00, // reserved
        0x00, 0x00, 0x00, 0x00, // reserved
    ]);
    content.extend_from_slice(&[0x1E, 0x59, 0x00, 0x9B]); // Crc32
    // Manifest pack header offset 64/0x40
    content.extend_from_slice(&[
        0x03, 0x00, // pack_count
        0x00, 0x00, 0x00, 0x00, 0x00, 0x00, 0x00, 0x00, // Value Store pos
    ]);
    content.extend_from_slice(&[0xff; 50]);
    content.extend_from_slice(&[0x77, 0x04, 0x2C, 0x88]); // Crc32
    // First packInfo (directory pack), offset 128
    content.extend_from_slice(&[
        0x10, 0x11, 0x12, 0x13, 0x14, 0x15, 0x16, 0x17, 0x18, 0x19, 0x1a, 0x1b, 0x1c, 0x1d, 0x1e, 0x1f, // pack uuid
        0xff, 0xff, 0x00, 0x00, 0x00, 0x00, 0x00, 0x00, // pack size
        0x01, 0x00, 0xff, 0x00, 0x00, 0x00, 0x00, 0x00, // pack check offset
        0x00, 0x00, //pack id
        b'd', // pack_kind
        0xF0, // pack_group
        0x01, 0x00, // free_data_id
    ]);
    content.extend_from_slice(&[0x00; 214]); // empty pack_location
    content.extend_from_slice(&[0xD8, 0x88, 0xA4, 0x3C]); // Crc32
    // Second packInfo (first content pack), offset 384
    content.extend_from_slice(&[
        0x20, 0x21, 0x22, 0x23, 0x24, 0x25, 0x26, 0x27, 0x28, 0x29, 0x2a, 0x2b, 0x2c, 0x2d, 0x2e, 0x2f, // pack uuid
        0xff, 0xff, 0xff, 0x00, 0x00, 0x00, 0x00, 0x00, // pack size
        0x21, 0x00, 0xff, 0x00, 0xff, 0x00, 0x00, 0x00, // pack check offset
        0x01, 0x00, //pack id
        b'c', //pack_kind
        0x00, // pack_group
        0x00, 0x00, // free_data_id
    ]);
    content.extend_from_slice(&[0x00; 214]); // empty pack_location
    content.extend_from_slice(&[0x89, 0xF9, 0x48, 0xD4]); // Crc32
    // Third packInfo (second content pack), offset 640
    content.extend_from_slice(&[
        0x30, 0x31, 0x32, 0x33, 0x34, 0x35, 0x36, 0x37, 0x38, 0x39, 0x3a, 0x3b, 0x3c, 0x3d, 0x3e, 0x3f, // pack uuid
        0xff, 0xff, 0xff, 0x00, 0x00, 0x00, 0x00, 0x00, // pack size
        0x01, 0x00, 0xff, 0xff, 0xff, 0x00, 0x00, 0x00, // pack check offset
        0x02, 0x00, //pack id,
        b'c', // pack_kind
        0x00, // pack_group
        0x00, 0x00, // free_data_id
        8, b'p', b'a', b'c', b'k', b'p', b'a', b't', b'h',
    ]);
    content.extend_from_slice(&[0x00; 214 - 9]);
    content.extend_from_slice(&[0x71, 0x0C, 0x8F, 0x11]); // Crc32
    // Check info offset 896/0x0380 (check_info_pos)
    content.push(0x00);
    content.extend_from_slice(&[0; 32]);
    content.extend_from_slice(&[0x5D, 0xD6, 0x39, 0xD7]); // Crc32
    let mut footer = [0; 64];
    footer.copy_from_slice(&content[..64]);
    footer.reverse();
    content.extend_from_slice(&footer);
    content
}

#[test]
fn manifest_pack_reads_its_pack_infos() {
    let main_pack = ManifestPack::new(Arc::new(manifest_bytes())).unwrap();
    let base = main_pack.pack_base();
    assert_eq!(base.magic, PackKind::Main);
    assert_eq!(base.app_vendor_id, [0, 0, 0, 1]);
    assert_eq!((base.major_version, base.minor_version), (0, 2));
    assert_eq!(
        base.uuid,
        [0x00, 0x01, 0x02, 0x03, 0x04, 0x05, 0x06, 0x07, 0x08, 0x09, 0x0a, 0x0b, 0x0c, 0x0d, 0x0e, 0x0f]
    );
    assert_eq!(base.file_size, 997);
    assert_eq!(main_pack.pack_count(), 3);
    assert_eq!(main_pack.max_id(), 2);
    assert_eq!(main_pack.get_free_data(), [0xff; 50]);
    assert_eq!(
        main_pack.get_directory_pack_info(),
        &PackInfo {
            uuid: [0x10, 0x11, 0x12, 0x13, 0x14, 0x15, 0x16, 0x17, 0x18, 0x19, 0x1a, 0x1b, 0x1c, 0x1d, 0x1e, 0x1f],
            pack_id: 0,
            pack_kind: PackKind::Directory,
            pack_group: 240,
            free_data_id: 1,
            pack_size: 0xffff,
            check_info_size: 0x01,
            check_info_offset: 0xff,
            pack_location: vec![],
        }
    );
    assert_eq!(
        main_pack.get_content_pack_info(1).unwrap(),
        &PackInfo {
            uuid: [0x20, 0x21, 0x22, 0x23, 0x24, 0x25, 0x26, 0x27, 0x28, 0x29, 0x2a, 0x2b, 0x2c, 0x2d, 0x2e, 0x2f],
            pack_id: 1,
            pack_kind: PackKind::Content,
            pack_group: 0,
            free_data_id: 0,
            pack_size: 0xffffff,
            check_info_size: 0x21,
            check_info_offset: 0xff00ff,
            pack_location: vec![],
        }
    );
    let third = main_pack.get_content_pack_info(2).unwrap();
    assert_eq!(third.pack_location, b"packpath".to_vec());
    assert_eq!(third.check_info_offset, 0xffffff);
    assert_eq!(
        main_pack.get_content_pack_info_uuid(&[0x30, 0x31, 0x32, 0x33, 0x34, 0x35, 0x36, 0x37, 0x38, 0x39, 0x3a, 0x3b, 0x3c, 0x3d, 0x3e, 0x3f]).unwrap().pack_id,
        2
    );
    assert_eq!(main_pack.get_content_pack_info(3).err(), Some(Error::Arg));
    assert_eq!(main_pack.get_content_pack_info_uuid(&[0; 16]).err(), Some(Error::Arg));
    assert_eq!(main_pack.get_pack_infos().len(), 2);
}

#[test]
fn manifest_pack_without_directory_is_refused() {
    let mut bytes = manifest_bytes();
    bytes[128 + 34] = b'c';
    assert_eq!(ManifestPack::new(Arc::new(bytes)).err(), Some(Error::InvalidFormat));
    let mut bytes = manifest_bytes();
    bytes[384 + 34] = b'x';
    assert_eq!(ManifestPack::new(Arc::new(bytes)).err(), Some(Error::InvalidFormat));
}

#[test]
fn manifest_pack_infos_must_fit_before_the_check() {
    let mut bytes = manifest_bytes();
    bytes[64] = 4; // four blocks do not fit before byte 896 and after the header
    assert!(ManifestPack::new(Arc::new(bytes)).is_err());
}
