use jubako::bases::ByteSize;
use jubako::reader::cluster::{Cluster, ClusterBuilder, CompressionType};
use jubako::Error;
use std::io::Write;

fn raw_data() -> Vec<u8> {
    vec![
        0x11, 0x12, 0x13, 0x14, 0x15, // Blob 0
        0x21, 0x22, 0x23, // Blob 1
        0x31, 0x32, 0x33, 0x34, 0x35, 0x36, 0x37, // Blob 3
    ]
}

fn compression_code(comp: CompressionType) -> u8 {
    match comp {
        CompressionType::Uncompressed => 0,
        CompressionType::Lz4 => 1,
        CompressionType::Lzma => 2,
        CompressionType::Zstd => 3,
    }
}

/// A cluster as stored: its raw data, its header and a checksum; gives the header
/// offset and size with the bytes.
fn create_cluster(comp: CompressionType, data: &[u8]) -> (usize, usize, Vec<u8>) {
    let mut cluster_data = Vec::new();
    cluster_data.extend_from_slice(data);
    let cluster_header = [
        compression_code(comp), // compression
        0x01,             // offset_size
        0x03, 0x00,       // blob_count
        data.len() as u8, // raw data size
        0x0f,             // Data size
        0x05,             // Offset of blob 1
        0x08,             // Offset of blob 2
    ];
    cluster_data.extend_from_slice(&cluster_header);
    cluster_data.extend_from_slice(&[0, 0, 0, 0]);
    (data.len(), cluster_data.len() - data.len() - 4, cluster_data)
}

fn create_raw_cluster() -> (usize, usize, Vec<u8>) {
    create_cluster(CompressionType::Uncompressed, &raw_data())
}

fn create_lz4_cluster() -> (usize, usize, Vec<u8>) {
    let mut encoder = lz4::EncoderBuilder::new().level(16).build(Vec::new()).unwrap();
    encoder.write_all(&raw_data()).unwrap();
    let (compressed, err) = encoder.finish();
    err.unwrap();
    create_cluster(CompressionType::Lz4, &compressed)
}

fn create_lzma_cluster() -> (usize, usize, Vec<u8>) {
    let stream = xz2::stream::Stream::new_lzma_encoder(
        &xz2::stream::LzmaOptions::new_preset(9).unwrap(),
    )
    .unwrap();
    let mut encoder = xz2::write::XzEncoder::new_stream(Vec::new(), stream);
    encoder.write_all(&raw_data()).unwrap();
    let compressed = encoder.finish().unwrap();
    create_cluster(CompressionType::Lzma, &compressed)
}

fn create_zstd_cluster() -> (usize, usize, Vec<u8>) {
    let mut encoder = zstd::Encoder::new(Vec::new(), 0).unwrap();
    encoder.write_all(&raw_data()).unwrap();
    let compressed = encoder.finish().unwrap();
    create_cluster(CompressionType::Zstd, &compressed)
}

fn check_cluster(comp: CompressionType, (offset, size, data): (usize, usize, Vec<u8>)) {
    let (header, raw_size) = ClusterBuilder::parse(&data[offset..offset + size], 0).unwrap();
    assert_eq!(header.compression, comp);
    assert_eq!(raw_size as usize, offset);
    assert_eq!(header.blob_offsets, vec![0, 5, 8, 15]);
    assert_eq!(header.data_size, 15);
    // The offsets are stored on one byte.
    assert_eq!(ByteSize::from_len(1), Some(ByteSize::U1));

    let cluster = Cluster::parse(&data, offset, size).unwrap();
    assert_eq!(cluster.blob_count(), 3);
    let expected: [&[u8]; 3] = [
        &[0x11, 0x12, 0x13, 0x14, 0x15],
        &[0x21, 0x22, 0x23],
        &[0x31, 0x32, 0x33, 0x34, 0x35, 0x36, 0x37],
    ];
    for (i, blob) in expected.iter().enumerate() {
        let region = cluster.get_bytes(i as u16).unwrap();
        assert_eq!(region.size(), blob.len() as u64);
        let mut stream = region.stream();
        let v = stream.read(usize::MAX);
        assert_eq!(&v, blob);
    }
    assert_eq!(cluster.get_bytes(3).err(), Some(Error::Arg));
}

#[test]
fn test_cluster() {
    check_cluster(CompressionType::Uncompressed, create_raw_cluster());
    check_cluster(CompressionType::Lz4, create_lz4_cluster());
    check_cluster(CompressionType::Lzma, create_lzma_cluster());
    check_cluster(CompressionType::Zstd, create_zstd_cluster());
}

#[test]
fn cluster_with_corrupted_data_fails() {
    let (offset, size, mut data) = create_zstd_cluster();
    for b in data.iter_mut().take(offset) {
        *b = 0xAA;
    }
    let cluster = Cluster::parse(&data, offset, size).unwrap();
    assert_eq!(cluster.get_bytes(0).err(), Some(Error::Decompression));
}

#[test]
fn cluster_unknown_compression_is_refused() {
    let (offset, size, mut data) = create_raw_cluster();
    data[offset] = 7;
    assert_eq!(Cluster::parse(&data, offset, size).err(), Some(Error::InvalidFormat));
}

#[test]
fn uncompressed_cluster_sizes_must_agree() {
    let (offset, size, mut data) = create_raw_cluster();
    // raw data size differs from the data size
    data[offset + 5] = 0x0e;
    assert_eq!(Cluster::parse(&data, offset, size).err(), Some(Error::InvalidFormat));
}

#[test]
fn cluster_plain_reader_is_built_once() {
    for (comp, cluster) in [
        (CompressionType::Uncompressed, create_raw_cluster()),
        (CompressionType::Lz4, create_lz4_cluster()),
        (CompressionType::Lzma, create_lzma_cluster()),
        (CompressionType::Zstd, create_zstd_cluster()),
    ] {
        let (offset, size, data) = cluster;
        let mut cluster = Cluster::parse(&data, offset, size).unwrap();
        assert_eq!(cluster.build_plain_reader(), Ok(()), "{comp:?}");
        assert_eq!(cluster.build_plain_reader(), Ok(()), "{comp:?}");
        let blob = cluster.get_bytes(2).unwrap();
        assert_eq!(blob.to_vec(), vec![0x31, 0x32, 0x33, 0x34, 0x35, 0x36, 0x37]);
        let blob = cluster.get_bytes(0).unwrap();
        assert_eq!(blob.to_vec(), vec![0x11, 0x12, 0x13, 0x14, 0x15]);
    }
}

#[test]
fn cluster_plain_reader_reports_a_corrupted_cluster() {
    let (offset, size, mut data) = create_zstd_cluster();
    for b in data.iter_mut().take(offset) {
        *b = 0xAA;
    }
    let mut cluster = Cluster::parse(&data, offset, size).unwrap();
    assert_eq!(cluster.build_plain_reader(), Err(Error::Decompression));
    assert_eq!(cluster.get_bytes(0).err(), Some(Error::Decompression));
}
