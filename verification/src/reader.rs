//! Reading the bytes of a container: regions of a source, and the streams over them.
pub mod byte_region;
pub mod byte_slice;
pub mod byte_stream;
pub mod locator;
pub mod manifest_pack;
pub mod cluster;
pub mod missing;
pub mod pack_base;
pub mod content_pack;
pub mod container_pack;
