//! Fixed-layout payload frames: one metadata record followed by the number of
//! fixed-size field records that the metadata announces, with optional CRC-32
//! accounting of every byte that passes through a reader or a writer.

pub mod checksum;
pub mod fields;
pub mod frame;
pub mod io;
pub mod read;
pub mod records;
pub mod write;
