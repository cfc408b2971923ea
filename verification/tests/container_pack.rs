use jubako::reader::byte_region::ByteRegion;
use jubako::reader::container_pack::{locate_pack, locate_pack_header, parse_header, ContainerPack, FullPackKind};
use jubako::Error;
use std::sync::Arc;

const UUID_A: [u8; 16] = [0xA0; 16];
const UUID_B: [u8; 16] = [0xB0; 16];
const UUID_C: [u8; 16] = [0xC0; 16];

fn region(bytes: Vec<u8>) -> ByteRegion {
    ByteRegion::new(Arc::new(bytes))
}

/// A pack of `len` bytes (at least 64) whose header has magic `magic` and uuid `uuid`;
/// a manifest pack also stores its size at byte 32.
fn pack(magic: &[u8; 4], uuid: [u8; 16], len: usize, fill: u8) -> Vec<u8> {
    let mut p = vec![fill; len];
    p[..4].copy_from_slice(magic);
    p[10..26].copy_from_slice(&uuid);
    p[32..40].copy_from_slice(&(len as u64).to_le_bytes());
    p
}

/// A container pack holding `packs` (uuid and bytes), its locators after the packs.
fn container(packs: &[([u8; 16], Vec<u8>)]) -> Vec<u8> {
    let mut c = vec![0u8; 128];
    c[..4].copy_from_slice(b"jbkC");
    let mut places = Vec::new();
    for (uuid, bytes) in packs {
        places.push((*uuid, c.len() as u64, bytes.len() as u64));
        c.extend_from_slice(bytes);
    }
    let locators_pos = c.len() as u64;
    for (uuid, pos, size) in places {
        c.extend_from_slice(&uuid);
        c.extend_from_slice(&size.to_le_bytes());
        c.extend_from_slice(&pos.to_le_bytes());
        c.extend_from_slice(&[0, 0, 0, 0]);
    }
    c[64..72].copy_from_slice(&locators_pos.to_le_bytes());
    c[72..74].copy_from_slice(&(packs.len() as u16).to_le_bytes());
    let size = c.len() as u64;
    c[8..16].copy_from_slice(&size.to_le_bytes());
    c
}

#[test]
fn container_pack_reads_its_packs() {
    let content = pack(b"jbkc", UUID_A, 80, 0x11);
    let manifest = pack(b"jbkm", UUID_B, 70, 0x22);
    let bytes = container(&[(UUID_A, content.clone()), (UUID_B, manifest.clone())]);
    let c = ContainerPack::new(region(bytes)).unwrap();
    assert_eq!(c.pack_count(), 2);
    assert_eq!(c.get_pack_uuid(0), UUID_A);
    assert_eq!(c.get_pack_uuid(1), UUID_B);
    assert_eq!(c.get_pack_reader(&UUID_A).unwrap().to_vec(), content);
    assert_eq!(c.get_pack_reader_from_idx(1).unwrap().to_vec(), manifest);
    assert!(c.get_pack_reader(&UUID_C).is_none());
    assert_eq!(c.get_manifest_pack_reader().unwrap().unwrap().to_vec(), manifest);
}

#[test]
fn container_pack_later_locator_replaces_a_uuid() {
    let first = pack(b"jbkc", UUID_A, 64, 0x11);
    let other = pack(b"jbkd", UUID_B, 64, 0x22);
    let last = pack(b"jbkc", UUID_A, 72, 0x33);
    let bytes = container(&[(UUID_A, first), (UUID_B, other), (UUID_A, last.clone())]);
    let c = ContainerPack::new(region(bytes)).unwrap();
    assert_eq!(c.pack_count(), 2);
    assert_eq!(c.get_pack_uuid(2), UUID_A);
    assert_eq!(c.get_pack_reader(&UUID_A).unwrap().to_vec(), last);
    assert_eq!(c.get_pack_reader_from_idx(0).unwrap().to_vec(), last);
    assert!(c.get_manifest_pack_reader().unwrap().is_none());
}

#[test]
fn container_pack_manifest_search_fails_on_a_bad_header() {
    let short = vec![b'j', b'b', b'k', b'c', 0, 0];
    let manifest = pack(b"jbkm", UUID_B, 64, 0);
    let bytes = container(&[(UUID_A, short), (UUID_B, manifest)]);
    let c = ContainerPack::new(region(bytes)).unwrap();
    assert_eq!(c.get_manifest_pack_reader().err(), Some(Error::UnexpectedEnd));
}

#[test]
fn container_pack_errors() {
    let good = container(&[(UUID_A, pack(b"jbkc", UUID_A, 64, 0))]);
    let mut wrong_magic = good.clone();
    wrong_magic[3] = b'c';
    assert_eq!(ContainerPack::new(region(wrong_magic)).err(), Some(Error::InvalidFormat));
    let mut bad_magic = good.clone();
    bad_magic[0] = b'x';
    assert_eq!(ContainerPack::new(region(bad_magic)).err(), Some(Error::InvalidFormat));
    assert_eq!(ContainerPack::new(region(good[..100].to_vec())).err(), Some(Error::UnexpectedEnd));
    // the locator runs past the end
    assert_eq!(ContainerPack::new(region(good[..good.len() - 1].to_vec())).err(), Some(Error::UnexpectedEnd));
    // the pack runs past the end
    let mut too_big = good.clone();
    let loc = good.len() - 36;
    too_big[loc + 16..loc + 24].copy_from_slice(&1000u64.to_le_bytes());
    assert_eq!(ContainerPack::new(region(too_big)).err(), Some(Error::UnexpectedEnd));
    // no pack at all
    let empty = container(&[]);
    let c = ContainerPack::new(region(empty)).unwrap();
    assert_eq!(c.pack_count(), 0);
    assert!(c.get_manifest_pack_reader().unwrap().is_none());
}

#[test]
fn parse_header_gives_kind_and_size() {
    let mut b = [0u8; 64];
    b[..4].copy_from_slice(b"jbkC");
    b[8..16].copy_from_slice(&1234u64.to_le_bytes());
    b[32..40].copy_from_slice(&99u64.to_le_bytes());
    assert_eq!(parse_header(&b), Ok((FullPackKind::Container, 1234)));
    b[3] = b'm';
    assert_eq!(parse_header(&b), Ok((FullPackKind::Manifest, 99)));
    b[3] = b'd';
    assert_eq!(parse_header(&b), Ok((FullPackKind::Directory, 0)));
    b[3] = b'c';
    assert_eq!(parse_header(&b), Ok((FullPackKind::Content, 0)));
    b[3] = b'z';
    assert_eq!(parse_header(&b), Err(Error::InvalidFormat));
}

#[test]
fn locate_pack_finds_a_container_at_the_start() {
    let manifest = pack(b"jbkm", UUID_B, 64, 0x22);
    let mut bytes = container(&[(UUID_B, manifest.clone())]);
    let size = bytes.len() as u64;
    bytes.extend_from_slice(&[0x55; 10]);
    let (kind, offset, found_size, _) = locate_pack_header(&region(bytes.clone())).unwrap();
    assert_eq!((kind, offset, found_size), (FullPackKind::Container, 0, size));
    let c = locate_pack(region(bytes)).unwrap();
    assert_eq!(c.pack_count(), 1);
    assert_eq!(c.get_manifest_pack_reader().unwrap().unwrap().to_vec(), manifest);
}

#[test]
fn locate_pack_finds_a_container_at_the_end() {
    let manifest = pack(b"jbkm", UUID_B, 64, 0x22);
    let mut c = container(&[(UUID_B, manifest.clone())]);
    // the header, written backwards, closes the container
    let total = (c.len() + 64) as u64;
    c[8..16].copy_from_slice(&total.to_le_bytes());
    let mut trailer: Vec<u8> = c[..64].to_vec();
    trailer.reverse();
    c.extend_from_slice(&trailer);
    let mut bytes = vec![0u8; 100];
    bytes.extend_from_slice(&c);
    let (kind, offset, size, _) = locate_pack_header(&region(bytes.clone())).unwrap();
    assert_eq!((kind, offset, size), (FullPackKind::Container, 100, total));
    let found = locate_pack(region(bytes)).unwrap();
    assert_eq!(found.get_pack_reader(&UUID_B).unwrap().to_vec(), manifest);
}

#[test]
fn locate_pack_takes_a_manifest_pack_alone() {
    let manifest = pack(b"jbkm", UUID_C, 90, 0x33);
    let c = locate_pack(region(manifest.clone())).unwrap();
    assert_eq!(c.pack_count(), 1);
    assert_eq!(c.get_pack_uuid(0), UUID_C);
    assert_eq!(c.get_pack_reader(&UUID_C).unwrap().to_vec(), manifest);
}

#[test]
fn locate_pack_refuses_other_packs() {
    assert_eq!(locate_pack(region(pack(b"jbkc", UUID_A, 64, 0))).err(), Some(Error::InvalidFormat));
    assert_eq!(locate_pack(region(pack(b"jbkd", UUID_A, 64, 0))).err(), Some(Error::InvalidFormat));
    assert_eq!(locate_pack(region(vec![0u8; 63])).err(), Some(Error::UnexpectedEnd));
    assert_eq!(locate_pack(region(vec![0u8; 200])).err(), Some(Error::InvalidFormat));
    // a header at the end giving a size larger than the file
    let mut bytes = vec![0u8; 200];
    let mut head = [0u8; 64];
    head[..4].copy_from_slice(b"jbkC");
    head[8..16].copy_from_slice(&500u64.to_le_bytes());
    head.reverse();
    bytes[136..].copy_from_slice(&head);
    assert_eq!(locate_pack(region(bytes)).err(), Some(Error::InvalidFormat));
    // a container whose size runs past the file
    let mut c = container(&[]);
    c[8..16].copy_from_slice(&5000u64.to_le_bytes());
    assert_eq!(locate_pack(region(c)).err(), Some(Error::UnexpectedEnd));
}
