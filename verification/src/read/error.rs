use vstd::prelude::*;

use crate::io::ReadExactError;

verus! {

/// Why reading a payload failed.
#[derive(Debug)]
pub enum ReadError<E> {
    /// The stream could not deliver the bytes of a record.
    ReadExact(ReadExactError<E>),
    /// Fewer records were read than the metadata announced.
    InsufficientData,
    /// The bytes of a record are not a valid value of its type.
    InvalidCast,
    /// A checksum did not match.
    InvalidCrc { calculated: u32, read: u32 },
}

impl<E> From<ReadExactError<E>> for ReadError<E> {
    fn from(e: ReadExactError<E>) -> (r: Self)
        ensures
            r == ReadError::ReadExact(e),
    {
        ReadError::ReadExact(e)
    }
}

impl<E> vstd::std_specs::convert::FromSpecImpl<ReadExactError<E>> for ReadError<E> {
    open spec fn obeys_from_spec() -> bool {
        true
    }

    open spec fn from_spec(e: ReadExactError<E>) -> Self {
        ReadError::ReadExact(e)
    }
}

} // verus!
