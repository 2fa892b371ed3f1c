//! Writing payloads: a metadata record, then exactly the field records it
//! announces.

pub mod crc_32_writer;
pub mod error;
pub mod fields;
pub mod metadata;
pub mod payload;
pub mod writeable;
