use jubako::main_pack::{CheckStream, MainPack, MainPackHeader, PackInfo, PackPos};
use jubako::pack::{CheckInfo, CheckKind, PackHeader, PackHeaderInfo, PackKind};

const UUID: [u8; 16] = [0x00, 0x01, 0x02, 0x03, 0x04, 0x05, 0x06, 0x07, 0x08, 0x09, 0x0a, 0x0b, 0x0c, 0x0d, 0x0e, 0x0f];

#[test]
fn test_packheader() {
    let mut content = vec![
        0x6a, 0x62, 0x6b, 0x63, // magic
        0x01, 0x00, 0x00, 0x00, // app_vendor_id
        0x01, // major_version
        0x02, // minor_version
        0x00, 0x01, 0x02, 0x03, 0x04, 0x05, 0x06, 0x07, 0x08, 0x09, 0x0a, 0x0b, 0x0c, 0x0d, 0x0e, 0x0f, // uuid
        0x00, 0x00, 0x00, 0x00, 0x00, 0x00, // padding
        0x00, 0x00, 0x00, 0x00, 0x00, 0x00, 0xff, 0xff, // file_size
        0x00, 0x00, 0x00, 0x00, 0x00, 0x00, 0xff, 0xee, // check_info_pos
        0x00, // No check
    ];
    content.extend_from_slice(&[0xff; 56]);
    assert_eq!(
        PackHeader::produce(&content, 0).unwrap(),
        PackHeader {
            magic: PackKind::Content,
            app_vendor_id: 0x01000000_u32,
            major_version: 0x01_u8,
            minor_version: 0x02_u8,
            uuid: UUID,
            file_size: 0xffff_u64,
            check_info_pos: 0xffee_u64,
        }
    );
}

#[test]
fn test_mainpackheader() {
    let mut content = vec![
        0x6a, 0x62, 0x6b, 0x6d, // magic
        0x01, 0x00, 0x00, 0x00, // app_vendor_id
        0x01, // major_version
        0x02, // minor_version
        0x00, 0x01, 0x02, 0x03, 0x04, 0x05, 0x06, 0x07, 0x08, 0x09, 0x0a, 0x0b, 0x0c, 0x0d, 0x0e, 0x0f, // uuid
        0x00, 0x00, 0x00, 0x00, 0x00, 0x00, // padding
        0x00, 0x00, 0x00, 0x00, 0x00, 0x00, 0xff, 0xff, // file_size
        0x00, 0x00, 0x00, 0x00, 0x00, 0x00, 0xff, 0xee, // check_info_pos
        0x00, 0x00, 0x00, 0x00, 0x00, 0x00, 0x00, 0x00, // reserved
        0x00, 0x00, 0x00, 0x00, 0x00, 0x00, 0x00, 0x00, // reserved
        0x02, // pack_count
    ];
    content.extend_from_slice(&[0xff; 15]);
    assert_eq!(
        MainPackHeader::produce(&content, 0).unwrap(),
        MainPackHeader {
            pack_header: PackHeader {
                magic: PackKind::Main,
                app_vendor_id: 0x01000000_u32,
                major_version: 0x01_u8,
                minor_version: 0x02_u8,
                uuid: UUID,
                file_size: 0xffff_u64,
                check_info_pos: 0xffee_u64,
            },
            pack_count: 2,
            free_data: vec![0xff; 15],
        }
    );
}

fn main_pack_content() -> Vec<u8> {
    let mut content = Vec::new();
    content.extend_from_slice(&[
        0x6a, 0x62, 0x6b, 0x6d, // magic
        0x01, 0x00, 0x00, 0x00, // app_vendor_id
        0x01, // major_version
        0x02, // minor_version
        0x00, 0x01, 0x02, 0x03, 0x04, 0x05, 0x06, 0x07, 0x08, 0x09, 0x0a, 0x0b, 0x0c, 0x0d, 0x0e, 0x0f, // uuid
        0x00, 0x00, 0x00, 0x00, 0x00, 0x00, // padding
        0x00, 0x00, 0x00, 0x00, 0x00, 0x00, 0x03, 0x71, // file_size
        0x00, 0x00, 0x00, 0x00, 0x00, 0x00, 0x03, 0x50, // check_info_pos
        0x00, 0x00, 0x00, 0x00, 0x00, 0x00, 0x00, 0x00, // reserved
        0x00, 0x00, 0x00, 0x00, 0x00, 0x00, 0x00, 0x00, // reserved
        0x02, // pack_count
    ]);
    content.extend_from_slice(&[0xff; 15]);
    // First packInfo (directory pack)
    content.extend_from_slice(&[
        0x10, 0x11, 0x12, 0x13, 0x14, 0x15, 0x16, 0x17, 0x18, 0x19, 0x1a, 0x1b, 0x1c, 0x1d, 0x1e, 0x1f, // pack uuid
        0x00, //pack id
    ]);
    content.extend_from_slice(&[0xf0; 103]);
    content.extend_from_slice(&[
        0x00, 0x00, 0x00, 0x00, 0x00, 0x00, 0xff, 0xff, // pack size
        0x00, 0x00, 0x00, 0x00, 0x00, 0x00, 0x00, 0xff, // pack check offset
        0x00, 0x00, 0x00, 0x00, 0x00, 0x00, 0xff, 0x00, // pack offset
    ]);
    content.extend_from_slice(&[0x00; 112]);
    // Second packInfo (first content pack)
    content.extend_from_slice(&[
        0x20, 0x21, 0x22, 0x23, 0x24, 0x25, 0x26, 0x27, 0x28, 0x29, 0x2a, 0x2b, 0x2c, 0x2d, 0x2e, 0x2f, // pack uuid
        0x01, //pack id
    ]);
    content.extend_from_slice(&[0xf1; 103]);
    content.extend_from_slice(&[
        0x00, 0x00, 0x00, 0x00, 0x00, 0xff, 0xff, 0xff, // pack size
        0x00, 0x00, 0x00, 0x00, 0x00, 0xff, 0x00, 0xff, // pack check offset
        0x00, 0x00, 0x00, 0x00, 0x00, 0x00, 0xff, 0x00, // pack offset
    ]);
    content.extend_from_slice(&[0x00; 112]);
    // Third packInfo (second content pack)
    content.extend_from_slice(&[
        0x30, 0x31, 0x32, 0x33, 0x34, 0x35, 0x36, 0x37, 0x38, 0x39, 0x3a, 0x3b, 0x3c, 0x3d, 0x3e, 0x3f, // pack uuid
        0x02, //pack id
    ]);
    content.extend_from_slice(&[0xf2; 103]);
    content.extend_from_slice(&[
        0x00, 0x00, 0x00, 0x00, 0x00, 0xff, 0xff, 0xff, // pack size
        0x00, 0x00, 0x00, 0x00, 0x00, 0xff, 0xff, 0xff, // pack check offset
        0x00, 0x00, 0x00, 0x00, 0x00, 0x00, 0x00, 0x00, // pack offset
        8, b'p', b'a', b'c', b'k', b'p', b'a', b't', b'h',
    ]);
    content.extend_from_slice(&[0x00; 112 - 9]);
    content
}

#[test]
fn main_pack_test_mainpack() {
    let mut content = main_pack_content();
    let hash = {
        let mut check_stream = CheckStream::new(&content, 3);
        let checked = check_stream.read_all();
        blake3::hash(&checked)
    };
    content.push(0x01);
    content.extend(hash.as_bytes());
    let main_pack = MainPack::new(content).unwrap();
    assert_eq!(main_pack.kind(), PackKind::Main);
    assert_eq!(main_pack.app_vendor_id(), 0x01000000);
    assert_eq!(main_pack.version(), (1, 2));
    assert_eq!(main_pack.uuid(), UUID);
    assert_eq!(main_pack.size(), 881);
    assert!(main_pack.check().unwrap());
    assert_eq!(
        main_pack.get_directory_pack_info(),
        &PackInfo {
            id: [0x10, 0x11, 0x12, 0x13, 0x14, 0x15, 0x16, 0x17, 0x18, 0x19, 0x1a, 0x1b, 0x1c, 0x1d, 0x1e, 0x1f],
            pack_id: 0,
            free_data: vec![0xf0; 103],
            pack_size: 0xffff,
            pack_check_info: 0xff,
            pack_pos: PackPos::Offset(0xff00),
        }
    );
    assert_eq!(
        main_pack.get_content_pack_info(1).unwrap(),
        &PackInfo {
            id: [0x20, 0x21, 0x22, 0x23, 0x24, 0x25, 0x26, 0x27, 0x28, 0x29, 0x2a, 0x2b, 0x2c, 0x2d, 0x2e, 0x2f],
            pack_id: 1,
            free_data: vec![0xf1; 103],
            pack_size: 0xffffff,
            pack_check_info: 0xff00ff,
            pack_pos: PackPos::Offset(0xff00),
        }
    );
    assert_eq!(
        main_pack.get_content_pack_info(2).unwrap(),
        &PackInfo {
            id: [0x30, 0x31, 0x32, 0x33, 0x34, 0x35, 0x36, 0x37, 0x38, 0x39, 0x3a, 0x3b, 0x3c, 0x3d, 0x3e, 0x3f],
            pack_id: 2,
            free_data: vec![0xf2; 103],
            pack_size: 0xffffff,
            pack_check_info: 0xffffff,
            pack_pos: PackPos::Path(b"packpath".to_vec()),
        }
    );
    assert!(main_pack.get_content_pack_info(3).is_err());
}

#[test]
fn main_pack_with_wrong_hash_fails_its_check() {
    let mut content = main_pack_content();
    content.push(0x01);
    content.extend([0u8; 32]);
    let main_pack = MainPack::new(content).unwrap();
    assert!(!main_pack.check().unwrap());
}

/// The main pack content followed by its blake3 check information.
fn checked_main_pack(content: &[u8]) -> Vec<u8> {
    let hash = {
        let mut check_stream = CheckStream::new(content, 2);
        blake3::hash(&check_stream.read_all())
    };
    let mut data = content.to_vec();
    data.push(0x01);
    data.extend(hash.as_bytes());
    data
}

#[test]
fn main_pack_check_skips_only_the_masked_zones() {
    let content = main_pack_content();
    // The masked zones (bytes 208 + 256k to 320 + 256k, before the end of the pack
    // information blocks) may change without failing the check.
    for p in [208, 300, 319, 464, 575, 720, 831] {
        let mut data = checked_main_pack(&content);
        data[p] ^= 0xff;
        assert!(MainPack::new(data).unwrap().check().unwrap(), "byte {p}");
    }
    // Any other byte before the check information is checked.
    for p in [10, 207, 320, 463, 576, 719] {
        let mut data = checked_main_pack(&content);
        data[p] ^= 0xff;
        match MainPack::new(data) {
            Ok(pack) => assert!(!pack.check().unwrap(), "byte {p}"),
            Err(_) => {}
        }
    }
}

#[test]
fn check_stream_masks_its_zones() {
    let content: Vec<u8> = (0..1000u32).map(|i| (i % 251) as u8 + 1).collect();
    let mut stream = CheckStream::new(&content, 1);
    let checked = stream.read_all();
    assert_eq!(checked.len(), content.len());
    for (p, b) in checked.iter().enumerate() {
        let masked = p >= 64 && p < 64 + 256 * 2 && (p - 64) % 256 >= 144;
        assert_eq!(*b, if masked { 0 } else { content[p] }, "byte {p}");
    }
    let mut stream = CheckStream::new(&content, 1);
    assert_eq!(stream.read(100).len(), 64);
    assert_eq!(stream.read(1000).len(), 144);
    assert_eq!(stream.read(50), vec![0u8; 50]);
    assert_eq!(stream.read(1000), vec![0u8; 62]);
}

#[test]
fn main_pack_without_check_passes() {
    let mut content = main_pack_content();
    content.push(0x00);
    let main_pack = MainPack::new(content).unwrap();
    assert!(main_pack.check().unwrap());
}

#[test]
fn pack_header_write_then_read() {
    let header = PackHeader::new(PackKind::Directory, PackHeaderInfo::new(0x1234_5678, 0x0102_0304_0506, 0x0708));
    assert_eq!(header.uuid[6] >> 4, 4);
    assert_eq!(header.uuid[8] >> 6, 2);
    let mut out = Vec::new();
    header.write(&mut out);
    assert_eq!(out.len(), 64);
    assert_eq!(&out[0..4], b"jbkd");
    assert_eq!(PackHeader::produce(&out, 0).unwrap(), header);
}

#[test]
fn pack_kind_errors() {
    assert!(matches!(PackKind::produce(b"jbkx", 0), Err(jubako::Error::InvalidFormat)));
    assert!(matches!(PackKind::produce(b"jbk", 0), Err(jubako::Error::UnexpectedEnd)));
    assert_eq!(PackKind::produce(b"jbkm", 0).unwrap(), PackKind::Main);
}

#[test]
fn check_kinds() {
    assert_eq!(CheckKind::produce(&[0], 0).unwrap(), CheckKind::NoCheck);
    assert_eq!(CheckKind::produce(&[1], 0).unwrap(), CheckKind::Blake3);
    assert!(matches!(CheckKind::produce(&[2], 0), Err(jubako::Error::InvalidFormat)));
    let mut out = Vec::new();
    CheckKind::Blake3.write(&mut out);
    assert_eq!(out, vec![1]);
}

#[test]
fn check_info_checks_the_blake3_hash() {
    let data = b"some bytes to check";
    let mut stored = vec![1u8];
    stored.extend(blake3::hash(data).as_bytes());
    let info = CheckInfo::produce(&stored, 0).unwrap();
    assert!(info.check(data));
    assert!(!info.check(b"other bytes"));
    assert!(matches!(CheckInfo::produce(&stored[..20], 0), Err(jubako::Error::UnexpectedEnd)));
    assert!(CheckInfo::produce(&[0], 0).unwrap().check(b"anything"));
}

