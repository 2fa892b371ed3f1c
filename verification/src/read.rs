//! Reading payloads: a metadata record, then the field records it announces.

pub mod crc_32_reader;
pub mod error;
pub mod fields;
pub mod metadata;
pub mod payload;
pub mod readable;
