use jubako::reader::byte_region::ByteRegion;
use jubako::reader::byte_slice::ByteSlice;
use jubako::reader::byte_stream::ByteStream;
use jubako::reader::locator::FsLocator;
use jubako::reader::manifest_pack::{PackOffsetsIter, PACK_INFO_BLOCK_SIZE};
use jubako::Error;
use std::sync::Arc;

fn source() -> Arc<Vec<u8>> {
    Arc::new((0u8..20).collect())
}

#[test]
fn byte_region_cut_and_slices() {
    let region = ByteRegion::new_from_parts(source(), 5, 15);
    assert_eq!(region.size(), 10);
    assert_eq!(region.get_slice(2, 3).unwrap(), &[7, 8, 9]);
    let slice = region.cut(4, 4);
    assert_eq!(slice.size(), 4);
    assert_eq!(slice.get_slice(1, 2).unwrap(), &[10, 11]);
    let inner = slice.cut(1, 2);
    assert_eq!(inner.bounds_in_source(), (10, 12));
    let all = region.as_slice();
    assert_eq!(all.bounds_in_source(), (5, 15));
}

#[test]
fn byte_region_from_slice_keeps_bytes() {
    let src = source();
    let slice = ByteSlice::new_from_parts(&src, 3, 8);
    let region = ByteRegion::from_slice(&slice, &src);
    assert_eq!(region.size(), 5);
    assert_eq!(region.get_slice(0, 5).unwrap(), &[3, 4, 5, 6, 7]);
    let whole = ByteRegion::new(src.clone());
    assert_eq!(whole.size(), 20);
}

#[test]
fn byte_stream_reads_in_order() {
    let mut stream = ByteStream::new_from_parts(source(), 10, 4);
    assert_eq!(stream.read(3), vec![4, 5, 6]);
    assert_eq!(stream.read(2), vec![7, 8]);
    // Asking more than what is left gives what is left.
    assert_eq!(stream.read(10), vec![9]);
    assert_eq!(stream.read(10), Vec::<u8>::new());
}

#[test]
fn byte_slice_stream_gives_the_slice() {
    let src = source();
    let slice = ByteSlice::new_from_parts(&src, 2, 6);
    let mut stream = slice.stream();
    assert_eq!(stream.read(100), vec![2, 3, 4, 5]);
    let region = ByteRegion::new_from_parts(src.clone(), 18, 20);
    assert_eq!(region.stream().read(100), vec![18, 19]);
}

#[test]
fn pack_offsets_end_at_check_info() {
    let mut it = PackOffsetsIter::new(1000, 3).unwrap();
    assert_eq!(it.next(), Some(1000 - 3 * PACK_INFO_BLOCK_SIZE));
    assert_eq!(it.next(), Some(1000 - 2 * PACK_INFO_BLOCK_SIZE));
    assert_eq!(it.next(), Some(1000 - PACK_INFO_BLOCK_SIZE));
    assert_eq!(it.next(), None);
    assert_eq!(it.next(), None);
}

#[test]
fn pack_offsets_before_pack_start_are_refused() {
    assert_eq!(PackOffsetsIter::new(500, 3).err(), Some(Error::InvalidFormat));
    let mut it = PackOffsetsIter::new(512, 2).unwrap();
    assert_eq!(it.next(), Some(0));
}

#[test]
fn locator_keeps_its_base_dir() {
    let locator = FsLocator::new("/some/dir".to_string());
    assert_eq!(locator.base_dir(), "/some/dir");
}

#[test]
fn reading_a_region_stream_to_its_end_gives_the_region() {
    let region = ByteRegion::new_from_parts(source(), 3, 17);
    let mut stream = region.stream();
    assert_eq!(stream.read_all(), (3u8..17).collect::<Vec<u8>>());
    assert_eq!(stream.read(5), Vec::<u8>::new());
    let cut = region.cut(2, 5);
    assert_eq!(cut.get_slice(0, 5).unwrap(), region.get_slice(2, 5).unwrap());
    assert_eq!(cut.cut(1, 3).get_slice(0, 3).unwrap(), region.get_slice(3, 3).unwrap());
}
